//! The signal socket, the capture socket and the steps of a run.

use crate::capture::{next_capture_step, CaptureStep};
use crate::config::Config;
use crate::decimal::decimal;
use crate::launch::{first_step, serve, ServeStep};
use crate::setup::{FailureKind, SetupError};
use crate::socket::{
    bind_signal_socket, call_outcome, current_effective_username, ensure_socket_mode,
    ensure_socket_owner, lookup_user_ids, next_bind_step, BindStep, OwnerChange, PathOwner,
    PathState,
};
use crate::text::has_nul;
use vstd::prelude::*;
use vstd::string::*;
use vstd::utf8::{decode_utf8, valid_utf8};

verus! {

/// Whether a text holds the character that ends a C string.
pub open spec fn cannot_be_c_string(s: Seq<char>) -> bool {
    exists|i: int| 0 <= i < s.len() && #[trigger] s[i] == '\0'
}

proof fn lemma_nul(s: Seq<char>)
    ensures
        cannot_be_c_string(s) == has_nul(s),
{
    assert forall|i: int| 0 <= i < s.len() implies (#[trigger] s[i] as u32 == 0 <==> s[i]
        == '\0') by {
        lemma_nul_char(s[i]);
    }
    if has_nul(s) {
        let i = choose|i: int| 0 <= i < s.len() && #[trigger] s[i] as u32 == 0;
        assert(s[i] == '\0');
    }
}

proof fn lemma_nul_char(c: char)
    ensures
        c as u32 == 0 <==> c == '\0',
{
}

/// A user is looked up under a name that a C string can hold, and is the one of
/// the entry that was found.
pub proof fn user_is_the_one_found(
    username: &str,
    entry: Option<(u32, u32)>,
    r: Result<(u32, u32), SetupError>,
)
    requires
        call_ensures(lookup_user_ids, (username, entry), r),
    ensures
        r is Ok <==> !cannot_be_c_string(username@) && entry is Some,
        r matches Ok(ids) ==> entry == Some(ids),
        cannot_be_c_string(username@) ==> (r matches Err(e) && e.kind == FailureKind::InvalidInput
            && e.message@ == "username contains NUL"@),
        !cannot_be_c_string(username@) && entry is None ==> (r matches Err(e) && e.kind
            == FailureKind::NotFound && e.message@ == "user `"@ + username@ + "` not found"@),
{
    lemma_nul(username@);
}

/// The effective user has the name of its entry, where there is one and its
/// bytes are text.
pub proof fn effective_user_is_named_by_its_entry(
    uid: u32,
    name: Option<Vec<u8>>,
    r: Result<String, SetupError>,
)
    requires
        call_ensures(current_effective_username, (uid, name), r),
    ensures
        r is Ok <==> name is Some && valid_utf8(name->0@),
        r matches Ok(text) ==> text@ == decode_utf8(name->0@),
        name is None ==> (r matches Err(e) && e.kind == FailureKind::NotFound && e.message@
            == "effective uid `"@ + decimal(uid as nat) + "` does not map to a passwd entry"@),
        name is Some && !valid_utf8(name->0@) ==> (r matches Err(e) && e.kind
            == FailureKind::InvalidData && e.message@ == "passwd username is not utf-8"@),
{
}

/// A socket ends up with the user and the group of its owner: it is left alone
/// exactly where it has both, and else given both. What is no socket, what
/// belongs to nobody and what has no proper path is refused, in this order.
pub proof fn socket_ends_up_with_its_owner(
    path: &str,
    username: &str,
    found: PathOwner,
    entry: Option<(u32, u32)>,
    r: Result<OwnerChange, SetupError>,
)
    requires
        call_ensures(ensure_socket_owner, (path, username, found, entry), r),
    ensures
        r matches Ok(change) ==> {
            &&& found.is_socket && entry is Some
            &&& (match change {
                OwnerChange::Keep => (found.uid, found.gid),
                OwnerChange::Change { uid, gid } => (uid, gid),
            }) == entry->0
            &&& change is Keep <==> entry == Some((found.uid, found.gid))
        },
        r is Ok <==> {
            &&& found.is_socket
            &&& !cannot_be_c_string(username@)
            &&& entry is Some
            &&& entry == Some((found.uid, found.gid)) || !cannot_be_c_string(path@)
        },
        !found.is_socket ==> (r matches Err(e) && e.kind == FailureKind::InvalidInput && e.message@
            == path@ + " is not a Unix socket"@),
        found.is_socket && cannot_be_c_string(username@) ==> (r matches Err(e) && e.kind
            == FailureKind::InvalidInput && e.message@ == "username contains NUL"@),
        found.is_socket && !cannot_be_c_string(username@) && entry is None ==> (r matches Err(e)
            && e.kind == FailureKind::NotFound && e.message@ == "user `"@ + username@
            + "` not found"@),
        found.is_socket && !cannot_be_c_string(username@) && entry is Some && r is Err ==> (
        r matches Err(e) && e.kind == FailureKind::InvalidInput && e.message@
            == "socket path contains NUL"@),
{
    lemma_nul(path@);
    lemma_nul(username@);
}

/// A mode is set as it was asked for, on a path that a C string can hold.
pub proof fn socket_mode_is_the_one_asked_for(path: &str, mode: u32, r: Result<u32, SetupError>)
    requires
        call_ensures(ensure_socket_mode, (path, mode), r),
    ensures
        !cannot_be_c_string(path@) ==> r == Ok::<u32, SetupError>(mode),
        cannot_be_c_string(path@) ==> (r matches Err(e) && e.kind == FailureKind::InvalidInput
            && e.message@ == "socket path contains NUL"@),
{
    lemma_nul(path@);
}

/// A system call succeeded exactly where it returned zero; else the system's
/// error stands.
pub proof fn zero_is_success(rc: i32, os_error: SetupError, r: Result<(), SetupError>)
    requires
        call_ensures(call_outcome, (rc, os_error), r),
    ensures
        rc == 0 <==> r is Ok,
        r matches Err(e) ==> e == os_error,
{
}

/// Binding removes a socket that is in the way, and refuses any other file.
pub proof fn only_a_socket_gives_way(
    path: &str,
    found: PathState,
    r: Result<BindStep, SetupError>,
)
    requires
        call_ensures(bind_signal_socket, (path, found), r),
    ensures
        found is Absent ==> r == Ok::<BindStep, SetupError>(BindStep::Bind),
        found is Socket ==> r == Ok::<BindStep, SetupError>(BindStep::RemoveStale),
        found is Other ==> (r matches Err(e) && e.kind == FailureKind::AlreadyExists && e.message@
            == path@ + " exists and is not a Unix socket"@),
{
}

/// A socket that nothing stands in the way of is bound, made non-blocking, given
/// its owner, and then made readable and writable for owner and group alone,
/// and each of these follows only a success of the one before it.
pub proof fn socket_is_restricted_before_it_is_ready(
    step: BindStep,
    outcome: Result<(), SetupError>,
    r: Result<BindStep, SetupError>,
)
    requires
        call_ensures(next_bind_step, (step, outcome), r),
    ensures
        outcome matches Err(e) ==> r == Err::<BindStep, SetupError>(e),
        outcome is Ok ==> r is Ok,
        outcome is Ok ==> {
            let next = r->Ok_0;
            &&& next == BindStep::Bind <==> step == BindStep::RemoveStale
            &&& next == BindStep::SetNonblocking <==> step == BindStep::Bind
            &&& next == BindStep::SetOwner <==> step == BindStep::SetNonblocking
            &&& next is SetMode <==> step == BindStep::SetOwner
            &&& next matches BindStep::SetMode(mode) ==> mode == 0o660
            &&& next == BindStep::Ready <==> step is SetMode || step is Ready
        },
{
}

/// Opening the capture socket succeeds with a descriptor, finding the interface
/// with an index, and the two calls after it with zero. Each success leads to
/// the next call, with the descriptor and the index that were given; each
/// failure ends the setup.
pub proof fn capture_calls_follow_each_other(
    name: &str,
    step: CaptureStep,
    returned: i64,
    os_error: SetupError,
    r: Result<CaptureStep, SetupError>,
)
    requires
        call_ensures(next_capture_step, (name, step, returned, os_error), r),
    ensures
        step is OpenSocket ==> (r is Ok <==> returned >= 0 && !cannot_be_c_string(name@)),
        step is FindInterface ==> (r is Ok <==> returned != 0),
        step is Bind ==> (r is Ok <==> returned == 0),
        step is SetPromiscuous ==> (r is Ok <==> returned == 0),
        r matches Ok(next) ==> {
            &&& step is OpenSocket ==> next == (CaptureStep::FindInterface { socket: returned })
            &&& step matches CaptureStep::FindInterface { socket } ==> next == (
            CaptureStep::Bind { socket, interface: returned })
            &&& step matches CaptureStep::Bind { socket, interface } ==> next == (
            CaptureStep::SetPromiscuous { socket, interface })
            &&& step matches CaptureStep::SetPromiscuous { socket, interface } ==> next == (
            CaptureStep::Ready { socket })
            &&& step is Ready ==> next == step
        },
        step is Ready ==> r is Ok,
{
    lemma_nul(name@);
}

/// A failed call of the capture setup is reported with the kind and the words of
/// the system's error, except that a missing interface is named, and a name
/// that no C string can hold is refused.
pub proof fn capture_failure_says_what_failed(
    name: &str,
    step: CaptureStep,
    returned: i64,
    os_error: SetupError,
    e: SetupError,
)
    requires
        call_ensures(
            next_capture_step,
            (name, step, returned, os_error),
            Err::<CaptureStep, SetupError>(e),
        ),
    ensures
        step is OpenSocket && returned < 0 ==> e.kind == os_error.kind && e.message@
            == "unable to open AF_PACKET capture socket: "@ + os_error.message@
            + " (needs CAP_NET_RAW)"@,
        step is OpenSocket && returned >= 0 ==> e.kind == FailureKind::InvalidInput && e.message@
            == "interface name contains an interior NUL"@,
        step is FindInterface ==> e.kind == FailureKind::NotFound && e.message@ == "interface `"@
            + name@ + "` not found"@,
        step is Bind ==> e.kind == os_error.kind && e.message@
            == "unable to bind capture socket to `"@ + name@ + "`: "@ + os_error.message@,
        step is SetPromiscuous ==> e.kind == os_error.kind && e.message@
            == "unable to enable promiscuous mode on `"@ + name@ + "`: "@ + os_error.message@,
{
}

/// A program with a signal socket begins with the socket's owner, another with
/// the display. After the display comes its splash, then the capture, then the
/// first operations, then the run, and after the run a signal socket is removed.
pub proof fn steps_of_a_program(
    config: &Config,
    step: ServeStep,
    first: ServeStep,
    r: Result<Option<ServeStep>, SetupError>,
)
    requires
        call_ensures(first_step, (config,), first),
        call_ensures(serve, (config, step, Ok::<(), SetupError>(())), r),
    ensures
        config.signal_socket_path is Some ==> first == ServeStep::LookupOwner,
        config.signal_socket_path is None ==> first == ServeStep::OpenFramebuffer,
        r is Ok,
        ({
            let next = r->Ok_0;
            &&& next == Some(ServeStep::BindSignalSocket) <==> step == ServeStep::LookupOwner
            &&& next == Some(ServeStep::OpenFramebuffer) <==> step == ServeStep::BindSignalSocket
            &&& next == Some(ServeStep::ShowSplash) <==> step == ServeStep::OpenFramebuffer
            &&& next == Some(ServeStep::OpenCapture) <==> step == ServeStep::ShowSplash
            &&& next == Some(ServeStep::Start) <==> step == ServeStep::OpenCapture
            &&& next == Some(ServeStep::Run) <==> step == ServeStep::Start
            &&& next == Some(ServeStep::RemoveSignalSocket) <==> step == ServeStep::Run
                && config.signal_socket_path is Some
            &&& next is None <==> step == ServeStep::RemoveSignalSocket || (step == ServeStep::Run
                && config.signal_socket_path is None)
        }),
{
}

/// A step that fails ends the program with its failure, of the same kind. Only
/// the failure to bind gets more words, with the path and the owner; and a
/// socket that cannot be removed is no failure of the program.
pub proof fn failed_step_ends_the_program(
    config: &Config,
    step: ServeStep,
    e: SetupError,
    r: Result<Option<ServeStep>, SetupError>,
)
    requires
        call_ensures(serve, (config, step, Err::<(), SetupError>(e)), r),
    ensures
        step == ServeStep::RemoveSignalSocket ==> r == Ok::<Option<ServeStep>, SetupError>(None),
        step != ServeStep::RemoveSignalSocket ==> r is Err && r->Err_0.kind == e.kind,
        step != ServeStep::RemoveSignalSocket && (step != ServeStep::BindSignalSocket
            || config.signal_socket_path is None) ==> r == Err::<Option<ServeStep>, SetupError>(e),
        step == ServeStep::BindSignalSocket && config.signal_socket_path is Some
            ==> r->Err_0.message@ == "unable to initialize signal socket publisher on "@
            + config.signal_socket_path->0@ + " for owner "@ + config.signal_socket_owner@ + ": "@
            + e.message@,
{
}

} // verus!
