//! From the command line to a running program.

use crate::config::{is_outcome, Config, ConfigError, Environment};
use crate::setup::{publisher_error, publisher_message, SetupError};
use vstd::prelude::*;
use vstd::string::*;

verus! {

/// Why the program does not run.
pub enum RunError {
    /// The platform has no packet sockets and no framebuffer.
    Platform,
    Config(ConfigError),
}

impl RunError {
    /// What the program says when it does not run.
    pub open spec fn text(&self) -> Seq<char> {
        match self {
            RunError::Platform =>
                "starlight's capture and framebuffer runtime requires Linux (Raspberry Pi + Sense HAT)"@,
            RunError::Config(e) => e.text(),
        }
    }

    pub fn message(&self) -> (r: String)
        ensures
            r@ == self.text(),
    {
        match self {
            RunError::Platform =>
                "starlight's capture and framebuffer runtime requires Linux (Raspberry Pi + Sense HAT)".to_string(),
            RunError::Config(e) => e.message(),
        }
    }
}

/// The configuration to run with: on Linux the one that the arguments and the
/// environment ask for, elsewhere none.
pub fn run(linux: bool, args: &[String], env: Environment) -> (r: Result<Config, RunError>)
    ensures
        match r {
            Ok(c) => linux && is_outcome(Ok(c), args@, env),
            Err(RunError::Platform) => !linux,
            Err(RunError::Config(e)) => linux && is_outcome(Err(e), args@, env),
        },
{
    if !linux {
        return Err(RunError::Platform);
    }
    match Config::from_env_and_args(args, env) {
        Ok(c) => Ok(c),
        Err(e) => Err(RunError::Config(e)),
    }
}

/// What the program does from its start to its end.
#[derive(Clone, Copy, Debug, PartialEq, Eq, Structural)]
pub enum ServeStep {
    /// Look up the owner of the thermal signal socket, with `lookup_user_ids`.
    LookupOwner,
    /// Bind the thermal signal socket, with the steps of `bind_signal_socket`.
    BindSignalSocket,
    /// Open the framebuffer; a failure is a `framebuffer_error`.
    OpenFramebuffer,
    ShowSplash,
    /// Open the capture socket, with the steps of `next_capture_step`.
    OpenCapture,
    /// Submit the first operations.
    Start,
    /// Handle completions until the stop.
    Run,
    /// Remove the thermal signal socket.
    RemoveSignalSocket,
}

/// The first step of a program, with a signal socket or without.
pub open spec fn starting_step(signalling: bool) -> ServeStep {
    if signalling {
        ServeStep::LookupOwner
    } else {
        ServeStep::OpenFramebuffer
    }
}

/// The step after one that succeeded.
pub open spec fn step_after(signalling: bool, step: ServeStep) -> Option<ServeStep> {
    match step {
        ServeStep::LookupOwner => Some(ServeStep::BindSignalSocket),
        ServeStep::BindSignalSocket => Some(ServeStep::OpenFramebuffer),
        ServeStep::OpenFramebuffer => Some(ServeStep::ShowSplash),
        ServeStep::ShowSplash => Some(ServeStep::OpenCapture),
        ServeStep::OpenCapture => Some(ServeStep::Start),
        ServeStep::Start => Some(ServeStep::Run),
        ServeStep::Run => if signalling {
            Some(ServeStep::RemoveSignalSocket)
        } else {
            None
        },
        ServeStep::RemoveSignalSocket => None,
    }
}

/// What follows a step: after a success the next step, or the end. A failure
/// ends the program and is reported as it is, except that a failure to bind
/// names the socket, and that it does not matter whether the socket could be
/// removed.
pub open spec fn is_next(
    config: Config,
    step: ServeStep,
    outcome: Result<(), SetupError>,
    r: Result<Option<ServeStep>, SetupError>,
) -> bool {
    match outcome {
        Ok(_) => r == Ok::<Option<ServeStep>, SetupError>(
            step_after(config.signal_socket_path is Some, step),
        ),
        Err(e) => match (step, config.signal_socket_path) {
            (ServeStep::RemoveSignalSocket, _) => r == Ok::<Option<ServeStep>, SetupError>(None),
            (ServeStep::BindSignalSocket, Some(path)) => r matches Err(reported) && reported.says(
                e.kind,
                publisher_message(path@, config.signal_socket_owner@, e.message@),
            ),
            _ => r == Err::<Option<ServeStep>, SetupError>(e),
        },
    }
}

/// Where a configured program starts: with the signal socket, if it has one.
pub fn first_step(config: &Config) -> (step: ServeStep)
    ensures
        step == starting_step(config.signal_socket_path is Some),
{
    if config.signal_socket_path.is_some() {
        ServeStep::LookupOwner
    } else {
        ServeStep::OpenFramebuffer
    }
}

/// What a configured program does after a step that came to `outcome`: the next
/// step, nothing more, or a failure to report.
pub fn serve(config: &Config, step: ServeStep, outcome: Result<(), SetupError>) -> (r: Result<
    Option<ServeStep>,
    SetupError,
>)
    ensures
        is_next(*config, step, outcome, r),
{
    match outcome {
        Ok(()) => Ok(
            match step {
                ServeStep::LookupOwner => Some(ServeStep::BindSignalSocket),
                ServeStep::BindSignalSocket => Some(ServeStep::OpenFramebuffer),
                ServeStep::OpenFramebuffer => Some(ServeStep::ShowSplash),
                ServeStep::ShowSplash => Some(ServeStep::OpenCapture),
                ServeStep::OpenCapture => Some(ServeStep::Start),
                ServeStep::Start => Some(ServeStep::Run),
                ServeStep::Run => if config.signal_socket_path.is_some() {
                    Some(ServeStep::RemoveSignalSocket)
                } else {
                    None
                },
                ServeStep::RemoveSignalSocket => None,
            },
        ),
        Err(e) => match step {
            ServeStep::RemoveSignalSocket => Ok(None),
            ServeStep::BindSignalSocket => match &config.signal_socket_path {
                Some(path) => Err(
                    publisher_error(path.as_str(), config.signal_socket_owner.as_str(), e),
                ),
                None => Err(e),
            },
            _ => Err(e),
        },
    }
}

/// The steps of a program in which nothing fails.
pub open spec fn serve_steps(signalling: bool) -> Seq<ServeStep> {
    let core = seq![
        ServeStep::OpenFramebuffer,
        ServeStep::ShowSplash,
        ServeStep::OpenCapture,
        ServeStep::Start,
        ServeStep::Run,
    ];
    if signalling {
        seq![ServeStep::LookupOwner, ServeStep::BindSignalSocket] + core + seq![
            ServeStep::RemoveSignalSocket,
        ]
    } else {
        core
    }
}

/// A program that took `steps`, which came to `outcomes` and led to `results`.
pub open spec fn is_serve_run(
    config: Config,
    steps: Seq<ServeStep>,
    outcomes: Seq<Result<(), SetupError>>,
    results: Seq<Result<Option<ServeStep>, SetupError>>,
) -> bool {
    &&& steps.len() > 0
    &&& steps.len() == outcomes.len()
    &&& steps.len() == results.len()
    &&& steps[0] == starting_step(config.signal_socket_path is Some)
    &&& forall|i: int|
        0 <= i < steps.len() ==> is_next(config, #[trigger] steps[i], outcomes[i], results[i])
    &&& forall|i: int|
        0 < i < steps.len() ==> results[i - 1] == Ok::<Option<ServeStep>, SetupError>(
            Some(#[trigger] steps[i]),
        )
}

/// A program takes its steps in their order, each only after all before it
/// succeeded. So nothing is bound or opened before the owner of the signal
/// socket is known, there is no capture without a display, and the socket is
/// removed only after the program has run to its stop. The program ends well
/// only after all of its steps, and of these only the removal may have failed.
/// It ends badly only with the failure of its last step, whose kind it keeps.
pub proof fn steps_come_in_order(
    config: Config,
    steps: Seq<ServeStep>,
    outcomes: Seq<Result<(), SetupError>>,
    results: Seq<Result<Option<ServeStep>, SetupError>>,
)
    requires
        is_serve_run(config, steps, outcomes, results),
    ensures
        steps.len() <= serve_steps(config.signal_socket_path is Some).len(),
        steps == serve_steps(config.signal_socket_path is Some).take(steps.len() as int),
        forall|i: int| 0 <= i < steps.len() - 1 ==> #[trigger] outcomes[i] is Ok,
        results.last() == Ok::<Option<ServeStep>, SetupError>(None) <==> {
            &&& steps == serve_steps(config.signal_socket_path is Some)
            &&& outcomes.last() is Ok || steps.last() == ServeStep::RemoveSignalSocket
        },
        results.last() is Err ==> {
            &&& outcomes.last() is Err
            &&& results.last()->Err_0.kind == outcomes.last()->Err_0.kind
        },
{
    let all = serve_steps(config.signal_socket_path is Some);
    lemma_steps_prefix(config, steps, outcomes, results, steps.len());
    assert(steps =~= all.take(steps.len() as int));
    assert(is_next(config, steps.last(), outcomes.last(), results.last()));
    assert(steps.len() == all.len() ==> steps =~= all);
}

proof fn lemma_steps_prefix(
    config: Config,
    steps: Seq<ServeStep>,
    outcomes: Seq<Result<(), SetupError>>,
    results: Seq<Result<Option<ServeStep>, SetupError>>,
    n: nat,
)
    requires
        is_serve_run(config, steps, outcomes, results),
        n <= steps.len(),
    ensures
        ({
            let all = serve_steps(config.signal_socket_path is Some);
            &&& n <= all.len()
            &&& forall|i: int| 0 <= i < n ==> #[trigger] steps[i] == all[i]
            &&& forall|i: int| 0 <= i < n - 1 ==> #[trigger] outcomes[i] is Ok
        }),
    decreases n,
{
    if n > 1 {
        lemma_steps_prefix(config, steps, outcomes, results, (n - 1) as nat);
        assert(is_next(config, steps[n - 2], outcomes[n - 2], results[n - 2]));
        assert(results[n - 2] == Ok::<Option<ServeStep>, SetupError>(Some(steps[n - 1])));
    }
}

} // verus!
