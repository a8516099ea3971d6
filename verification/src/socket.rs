//! The thermal signal socket: who owns it, and how it comes into being.
//!
//! The calls into the system are the caller's. Given what they returned, the
//! functions here say what follows.

use crate::publisher::ThermalSignalPublisher;
use crate::setup::{sentence, FailureKind, SetupError};
use crate::decimal::{decimal, decimal_text};
use crate::text::{contains_nul, has_nul, utf8_text};
use vstd::prelude::*;
use vstd::string::*;
use vstd::utf8::{decode_utf8, valid_utf8};

verus! {

/// The permissions of the signal socket: owner and group may read and write.
pub const SIGNAL_SOCKET_MODE: u32 = 0o660;

/// The user and group of a passwd entry for `username`, where there is one.
pub fn lookup_user_ids(username: &str, entry: Option<(u32, u32)>) -> (r: Result<
    (u32, u32),
    SetupError,
>)
    ensures
        match r {
            Ok(ids) => !has_nul(username@) && entry == Some(ids),
            Err(e) => if has_nul(username@) {
                e.says(FailureKind::InvalidInput, "username contains NUL"@)
            } else {
                entry is None && e.says(
                    FailureKind::NotFound,
                    "user `"@ + username@ + "` not found"@,
                )
            },
        },
{
    if contains_nul(username) {
        return Err(
            SetupError {
                kind: FailureKind::InvalidInput,
                message: "username contains NUL".to_string(),
            },
        );
    }
    match entry {
        Some(ids) => Ok(ids),
        None => Err(
            SetupError {
                kind: FailureKind::NotFound,
                message: sentence("user `", username, "` not found"),
            },
        ),
    }
}

/// The name of the effective user `uid`: `name` holds the bytes of its passwd
/// entry, where there is one.
pub fn current_effective_username(uid: u32, name: Option<Vec<u8>>) -> (r: Result<
    String,
    SetupError,
>)
    ensures
        match r {
            Ok(text) => name is Some && valid_utf8(name->0@) && text@ == decode_utf8(name->0@),
            Err(e) => match name {
                None => e.says(
                    FailureKind::NotFound,
                    "effective uid `"@ + decimal(uid as nat)
                        + "` does not map to a passwd entry"@,
                ),
                Some(bytes) => !valid_utf8(bytes@) && e.says(
                    FailureKind::InvalidData,
                    "passwd username is not utf-8"@,
                ),
            },
        },
{
    match name {
        None => Err(
            SetupError {
                kind: FailureKind::NotFound,
                message: sentence(
                    "effective uid `",
                    decimal_text(uid as u128).as_str(),
                    "` does not map to a passwd entry",
                ),
            },
        ),
        Some(bytes) => match utf8_text(bytes) {
            Some(text) => Ok(text),
            None => Err(
                SetupError {
                    kind: FailureKind::InvalidData,
                    message: "passwd username is not utf-8".to_string(),
                },
            ),
        },
    }
}

/// What the file system says of a path.
#[derive(Clone, Copy, Debug, PartialEq, Eq, Structural)]
pub struct PathOwner {
    pub is_socket: bool,
    pub uid: u32,
    pub gid: u32,
}

/// What has to be done to give a path its owner.
#[derive(Clone, Copy, Debug, PartialEq, Eq, Structural)]
pub enum OwnerChange {
    Keep,
    Change { uid: u32, gid: u32 },
}

/// Whether the socket at `path` has to change hands, so that it belongs to
/// `username`, whose passwd entry is `entry`.
pub fn ensure_socket_owner(
    path: &str,
    username: &str,
    found: PathOwner,
    entry: Option<(u32, u32)>,
) -> (r: Result<OwnerChange, SetupError>)
    ensures
        match r {
            Ok(change) => {
                &&& found.is_socket
                &&& !has_nul(username@)
                &&& entry is Some
                &&& change == if entry == Some((found.uid, found.gid)) {
                    OwnerChange::Keep
                } else {
                    OwnerChange::Change { uid: entry.unwrap().0, gid: entry.unwrap().1 }
                }
                &&& change is Change ==> !has_nul(path@)
            },
            Err(e) => if !found.is_socket {
                e.says(FailureKind::InvalidInput, path@ + " is not a Unix socket"@)
            } else if has_nul(username@) {
                e.says(FailureKind::InvalidInput, "username contains NUL"@)
            } else if entry is None {
                e.says(FailureKind::NotFound, "user `"@ + username@ + "` not found"@)
            } else {
                &&& entry != Some((found.uid, found.gid))
                &&& has_nul(path@)
                &&& e.says(FailureKind::InvalidInput, "socket path contains NUL"@)
            },
        },
{
    if !found.is_socket {
        let mut message = path.to_string();
        message.append(" is not a Unix socket");
        return Err(SetupError { kind: FailureKind::InvalidInput, message });
    }
    match lookup_user_ids(username, entry) {
        Err(e) => Err(e),
        Ok((uid, gid)) => {
            if found.uid == uid && found.gid == gid {
                return Ok(OwnerChange::Keep);
            }
            match path_for_system(path) {
                Err(e) => Err(e),
                Ok(()) => Ok(OwnerChange::Change { uid, gid }),
            }
        },
    }
}

/// Whether the system can be given this socket path.
fn path_for_system(path: &str) -> (r: Result<(), SetupError>)
    ensures
        match r {
            Ok(()) => !has_nul(path@),
            Err(e) => has_nul(path@) && e.says(
                FailureKind::InvalidInput,
                "socket path contains NUL"@,
            ),
        },
{
    if contains_nul(path) {
        Err(
            SetupError {
                kind: FailureKind::InvalidInput,
                message: "socket path contains NUL".to_string(),
            },
        )
    } else {
        Ok(())
    }
}

/// The mode to set on the socket at `path`.
pub fn ensure_socket_mode(path: &str, mode: u32) -> (r: Result<u32, SetupError>)
    ensures
        match r {
            Ok(m) => !has_nul(path@) && m == mode,
            Err(e) => has_nul(path@) && e.says(
                FailureKind::InvalidInput,
                "socket path contains NUL"@,
            ),
        },
{
    match path_for_system(path) {
        Err(e) => Err(e),
        Ok(()) => Ok(mode),
    }
}

/// What a system call that returns zero on success came to; `os_error` is the
/// system's last error.
pub fn call_outcome(rc: i32, os_error: SetupError) -> (r: Result<(), SetupError>)
    ensures
        r == if rc == 0 {
            Ok::<(), SetupError>(())
        } else {
            Err(os_error)
        },
{
    if rc != 0 {
        Err(os_error)
    } else {
        Ok(())
    }
}

/// What stands at the socket's path.
#[derive(Clone, Copy, Debug, PartialEq, Eq, Structural)]
pub enum PathState {
    Absent,
    Socket,
    Other,
}

/// The steps by which the socket comes into being.
#[derive(Clone, Copy, Debug, PartialEq, Eq, Structural)]
pub enum BindStep {
    /// Remove the socket that an earlier run left behind.
    RemoveStale,
    Bind,
    SetNonblocking,
    SetOwner,
    SetMode(u32),
    /// The listener is ready, with no subscribers yet.
    Ready,
}

/// The step that follows a finished one.
pub open spec fn step_after(step: BindStep) -> BindStep {
    match step {
        BindStep::RemoveStale => BindStep::Bind,
        BindStep::Bind => BindStep::SetNonblocking,
        BindStep::SetNonblocking => BindStep::SetOwner,
        BindStep::SetOwner => BindStep::SetMode(SIGNAL_SOCKET_MODE),
        BindStep::SetMode(_) => BindStep::Ready,
        BindStep::Ready => BindStep::Ready,
    }
}

/// The first step towards a socket at `path`: a stale socket gives way, any
/// other file does not.
pub fn bind_signal_socket(path: &str, found: PathState) -> (r: Result<BindStep, SetupError>)
    ensures
        match r {
            Ok(step) => step == match found {
                PathState::Absent => BindStep::Bind,
                _ => BindStep::RemoveStale,
            } && found != PathState::Other,
            Err(e) => found == PathState::Other && e.says(
                FailureKind::AlreadyExists,
                path@ + " exists and is not a Unix socket"@,
            ),
        },
{
    match found {
        PathState::Absent => Ok(BindStep::Bind),
        PathState::Socket => Ok(BindStep::RemoveStale),
        PathState::Other => {
            let mut message = path.to_string();
            message.append(" exists and is not a Unix socket");
            Err(SetupError { kind: FailureKind::AlreadyExists, message })
        },
    }
}

/// The step after `step`, given how that one went: the first failure ends it.
pub fn next_bind_step(step: BindStep, outcome: Result<(), SetupError>) -> (r: Result<
    BindStep,
    SetupError,
>)
    ensures
        match outcome {
            Ok(()) => r == Ok::<BindStep, SetupError>(step_after(step)),
            Err(e) => r == Err::<BindStep, SetupError>(e),
        },
{
    match outcome {
        Err(e) => Err(e),
        Ok(()) => Ok(
            match step {
                BindStep::RemoveStale => BindStep::Bind,
                BindStep::Bind => BindStep::SetNonblocking,
                BindStep::SetNonblocking => BindStep::SetOwner,
                BindStep::SetOwner => BindStep::SetMode(SIGNAL_SOCKET_MODE),
                BindStep::SetMode(_) => BindStep::Ready,
                BindStep::Ready => BindStep::Ready,
            },
        ),
    }
}

/// `n` steps on from `step`, none of which failed.
pub open spec fn steps_on(step: BindStep, n: nat) -> BindStep
    decreases n,
{
    if n == 0 {
        step
    } else {
        step_after(steps_on(step, (n - 1) as nat))
    }
}

/// A socket that is ready was bound, made non-blocking, given its owner and
/// then its mode, in this order; a stale one was removed first.
pub proof fn ready_socket_is_owned_and_restricted(first: BindStep)
    requires
        first == BindStep::Bind || first == BindStep::RemoveStale,
    ensures
        ({
            let bind: nat = if first == BindStep::Bind {
                0
            } else {
                1
            };
            &&& steps_on(first, bind) == BindStep::Bind
            &&& steps_on(first, bind + 1) == BindStep::SetNonblocking
            &&& steps_on(first, bind + 2) == BindStep::SetOwner
            &&& steps_on(first, bind + 3) == BindStep::SetMode(SIGNAL_SOCKET_MODE)
            &&& steps_on(first, bind + 4) == BindStep::Ready
            &&& forall|n: nat| n < bind + 4 ==> #[trigger] steps_on(first, n) != BindStep::Ready
        }),
{
    reveal_with_fuel(steps_on, 6);
    let bind: nat = if first == BindStep::Bind {
        0
    } else {
        1
    };
    assert forall|n: nat| n < bind + 4 implies #[trigger] steps_on(first, n) != BindStep::Ready by {
        assert(n == 0 || n == 1 || n == 2 || n == 3 || n == 4);
    }
}

/// What one try to accept a pending connection gave.
#[derive(Clone, Copy, Debug, PartialEq, Eq, Structural)]
pub enum AcceptAttempt {
    Accepted(i32),
    WouldBlock,
    Interrupted,
    Failed,
}

/// What to do after a try to accept.
#[derive(Clone, Copy, Debug, PartialEq, Eq, Structural)]
pub enum DrainStep {
    TryAgain,
    Done,
    ReportAndStop,
}

/// Takes in one pending connection: whoever was accepted becomes a subscriber,
/// and the draining goes on until nothing is pending or accepting fails.
pub fn drain_pending_clients(
    publisher: &mut ThermalSignalPublisher,
    attempt: AcceptAttempt,
) -> (step: DrainStep)
    ensures
        match attempt {
            AcceptAttempt::Accepted(client) => step == DrainStep::TryAgain && final(publisher)@
                == old(publisher)@.push(client),
            AcceptAttempt::WouldBlock => step == DrainStep::Done && final(publisher)@ == old(
                publisher,
            )@,
            AcceptAttempt::Interrupted => step == DrainStep::TryAgain && final(publisher)@ == old(
                publisher,
            )@,
            AcceptAttempt::Failed => step == DrainStep::ReportAndStop && final(publisher)@ == old(
                publisher,
            )@,
        },
        final(publisher).in_flight() == old(publisher).in_flight(),
{
    match attempt {
        AcceptAttempt::Accepted(client) => {
            publisher.add_client(client);
            DrainStep::TryAgain
        },
        AcceptAttempt::WouldBlock => DrainStep::Done,
        AcceptAttempt::Interrupted => DrainStep::TryAgain,
        AcceptAttempt::Failed => DrainStep::ReportAndStop,
    }
}

} // verus!
