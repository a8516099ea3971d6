//! How the capture socket is opened, bound to one interface and made
//! promiscuous.

use crate::setup::{sentence, FailureKind, SetupError};
use crate::text::{contains_nul, has_nul};
use vstd::prelude::*;
use vstd::string::*;

verus! {

/// The system calls that lead to a capture socket, with the socket that was
/// opened and the index of the interface that was found.
#[derive(Clone, Copy, Debug, PartialEq, Eq, Structural)]
pub enum CaptureStep {
    OpenSocket,
    FindInterface { socket: i64 },
    Bind { socket: i64, interface: i64 },
    SetPromiscuous { socket: i64, interface: i64 },
    Ready { socket: i64 },
}

/// Whether the call of a step that returned `returned` went wrong.
pub open spec fn call_failed(step: CaptureStep, returned: i64) -> bool {
    match step {
        CaptureStep::OpenSocket => returned < 0,
        CaptureStep::FindInterface { .. } => returned == 0,
        CaptureStep::Bind { .. } => returned != 0,
        CaptureStep::SetPromiscuous { .. } => returned != 0,
        CaptureStep::Ready { .. } => false,
    }
}

/// The failure that a failed step is reported as: where the system failed, with
/// the kind of the system's error.
pub open spec fn failure_of(
    step: CaptureStep,
    name: Seq<char>,
    os_kind: FailureKind,
    os_error: Seq<char>,
) -> (FailureKind, Seq<char>) {
    match step {
        CaptureStep::OpenSocket => (
            os_kind,
            "unable to open AF_PACKET capture socket: "@ + os_error + " (needs CAP_NET_RAW)"@,
        ),
        CaptureStep::FindInterface { .. } => (
            FailureKind::NotFound,
            "interface `"@ + name + "` not found"@,
        ),
        CaptureStep::Bind { .. } => (
            os_kind,
            "unable to bind capture socket to `"@ + name + "`: "@ + os_error,
        ),
        _ => (
            os_kind,
            "unable to enable promiscuous mode on `"@ + name + "`: "@ + os_error,
        ),
    }
}

/// The step after a successful one, whose system call returned `returned`.
pub open spec fn capture_step_after(step: CaptureStep, returned: i64) -> CaptureStep {
    match step {
        CaptureStep::OpenSocket => CaptureStep::FindInterface { socket: returned },
        CaptureStep::FindInterface { socket } => CaptureStep::Bind { socket, interface: returned },
        CaptureStep::Bind { socket, interface } => CaptureStep::SetPromiscuous {
            socket,
            interface,
        },
        CaptureStep::SetPromiscuous { socket, .. } => CaptureStep::Ready { socket },
        CaptureStep::Ready { socket } => CaptureStep::Ready { socket },
    }
}

/// What follows a step whose system call returned `returned`: the next step, or
/// the failure to report. A name that no C string can hold is refused before the
/// interface is looked up.
pub open spec fn is_next(
    name: Seq<char>,
    step: CaptureStep,
    returned: i64,
    os_error: SetupError,
    r: Result<CaptureStep, SetupError>,
) -> bool {
    match r {
        Ok(next) => {
            &&& !call_failed(step, returned)
            &&& step == CaptureStep::OpenSocket ==> !has_nul(name)
            &&& next == capture_step_after(step, returned)
        },
        Err(e) => if call_failed(step, returned) {
            let failure = failure_of(step, name, os_error.kind, os_error.message@);
            e.says(failure.0, failure.1)
        } else {
            &&& step == CaptureStep::OpenSocket
            &&& has_nul(name)
            &&& e.says(FailureKind::InvalidInput, "interface name contains an interior NUL"@)
        },
    }
}

/// The step that follows `step`, whose system call returned `returned`;
/// `os_error` is the system's last error.
pub fn next_capture_step(
    interface_name: &str,
    step: CaptureStep,
    returned: i64,
    os_error: SetupError,
) -> (r: Result<CaptureStep, SetupError>)
    ensures
        is_next(interface_name@, step, returned, os_error, r),
{
    match step {
        CaptureStep::OpenSocket => {
            if returned < 0 {
                return Err(
                    SetupError {
                        kind: os_error.kind,
                        message: sentence(
                            "unable to open AF_PACKET capture socket: ",
                            os_error.message.as_str(),
                            " (needs CAP_NET_RAW)",
                        ),
                    },
                );
            }
            if contains_nul(interface_name) {
                return Err(
                    SetupError {
                        kind: FailureKind::InvalidInput,
                        message: "interface name contains an interior NUL".to_string(),
                    },
                );
            }
            Ok(CaptureStep::FindInterface { socket: returned })
        },
        CaptureStep::FindInterface { socket } => {
            if returned == 0 {
                return Err(
                    SetupError {
                        kind: FailureKind::NotFound,
                        message: sentence("interface `", interface_name, "` not found"),
                    },
                );
            }
            Ok(CaptureStep::Bind { socket, interface: returned })
        },
        CaptureStep::Bind { socket, interface } => {
            if returned != 0 {
                let mut message = sentence(
                    "unable to bind capture socket to `",
                    interface_name,
                    "`: ",
                );
                message.append(os_error.message.as_str());
                return Err(SetupError { kind: os_error.kind, message });
            }
            Ok(CaptureStep::SetPromiscuous { socket, interface })
        },
        CaptureStep::SetPromiscuous { socket, .. } => {
            if returned != 0 {
                let mut message = sentence(
                    "unable to enable promiscuous mode on `",
                    interface_name,
                    "`: ",
                );
                message.append(os_error.message.as_str());
                return Err(SetupError { kind: os_error.kind, message });
            }
            Ok(CaptureStep::Ready { socket })
        },
        CaptureStep::Ready { socket } => Ok(CaptureStep::Ready { socket }),
    }
}

/// A capture socket that was set up by `steps`, whose system calls returned
/// `returned` with the last errors `os_errors`, and which led to `results`.
pub open spec fn is_capture_run(
    name: Seq<char>,
    steps: Seq<CaptureStep>,
    returned: Seq<i64>,
    os_errors: Seq<SetupError>,
    results: Seq<Result<CaptureStep, SetupError>>,
) -> bool {
    &&& steps.len() > 0
    &&& steps.len() == returned.len()
    &&& steps.len() == os_errors.len()
    &&& steps.len() == results.len()
    &&& steps[0] == CaptureStep::OpenSocket
    &&& forall|i: int|
        0 <= i < steps.len() ==> is_next(
            name,
            #[trigger] steps[i],
            returned[i],
            os_errors[i],
            results[i],
        )
    &&& forall|i: int|
        0 < i < steps.len() ==> results[i - 1] == Ok::<CaptureStep, SetupError>(
            #[trigger] steps[i],
        )
}

/// The steps of a setup in which nothing fails, given what its calls return.
pub open spec fn capture_steps(returned: Seq<i64>) -> Seq<CaptureStep> {
    seq![
        CaptureStep::OpenSocket,
        CaptureStep::FindInterface { socket: returned[0] },
        CaptureStep::Bind { socket: returned[0], interface: returned[1] },
        CaptureStep::SetPromiscuous { socket: returned[0], interface: returned[1] },
        CaptureStep::Ready { socket: returned[0] },
    ]
}

/// The steps to a capture socket come in their order, each only after all before
/// it succeeded.
pub proof fn capture_steps_come_in_order(
    name: Seq<char>,
    steps: Seq<CaptureStep>,
    returned: Seq<i64>,
    os_errors: Seq<SetupError>,
    results: Seq<Result<CaptureStep, SetupError>>,
)
    requires
        is_capture_run(name, steps, returned, os_errors, results),
    ensures
        forall|i: int|
            0 <= i < steps.len() ==> #[trigger] steps[i] == capture_steps(returned)[if i < 4 {
                i
            } else {
                4
            }],
        forall|i: int|
            0 <= i < steps.len() - 1 ==> !call_failed(#[trigger] steps[i], returned[i]),
        steps.len() > 1 ==> !has_nul(name),
{
    lemma_steps_prefix(name, steps, returned, os_errors, results, steps.len());
}

proof fn lemma_steps_prefix(
    name: Seq<char>,
    steps: Seq<CaptureStep>,
    returned: Seq<i64>,
    os_errors: Seq<SetupError>,
    results: Seq<Result<CaptureStep, SetupError>>,
    n: nat,
)
    requires
        is_capture_run(name, steps, returned, os_errors, results),
        n <= steps.len(),
    ensures
        forall|i: int|
            0 <= i < n ==> #[trigger] steps[i] == capture_steps(returned)[if i < 4 {
                i
            } else {
                4
            }],
        forall|i: int| 0 <= i < n - 1 ==> !call_failed(#[trigger] steps[i], returned[i]),
        n > 1 ==> !has_nul(name),
    decreases n,
{
    if n > 1 {
        lemma_steps_prefix(name, steps, returned, os_errors, results, (n - 1) as nat);
        assert(is_next(name, steps[n - 2], returned[n - 2], os_errors[n - 2], results[n - 2]));
        assert(results[n - 2] == Ok::<CaptureStep, SetupError>(steps[n - 1]));
    }
}

/// A capture socket that is ready was opened, then bound to the interface that
/// was found, then made promiscuous on that same interface, and each of these
/// calls succeeded.
pub proof fn ready_capture_is_bound_and_promiscuous(
    name: Seq<char>,
    steps: Seq<CaptureStep>,
    returned: Seq<i64>,
    os_errors: Seq<SetupError>,
    results: Seq<Result<CaptureStep, SetupError>>,
)
    requires
        is_capture_run(name, steps, returned, os_errors, results),
        steps.last() is Ready,
    ensures
        steps.len() >= 5,
        steps.take(5) == capture_steps(returned),
        steps.last() == (CaptureStep::Ready { socket: returned[0] }),
        returned[0] >= 0,
        returned[1] != 0,
        returned[2] == 0,
        returned[3] == 0,
        !has_nul(name),
{
    capture_steps_come_in_order(name, steps, returned, os_errors, results);
    assert(steps[steps.len() - 1] == steps.last());
    assert(steps.take(5) =~= capture_steps(returned));
    assert(!call_failed(steps[0], returned[0]));
    assert(!call_failed(steps[1], returned[1]));
    assert(!call_failed(steps[2], returned[2]));
    assert(!call_failed(steps[3], returned[3]));
}

} // verus!
