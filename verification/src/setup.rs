//! What can go wrong while the program sets itself up, and what it then says.

use vstd::prelude::*;
use vstd::string::*;

verus! {

/// What kind of failure a setup step met.
#[derive(Clone, Copy, Debug, PartialEq, Eq, Structural)]
pub enum FailureKind {
    AlreadyExists,
    InvalidInput,
    NotFound,
    InvalidData,
    WriteZero,
    /// Another kind, by the number that the operating system gives the error.
    Os(i32),
    /// A kind that has neither a name here nor a number.
    Other,
}

/// A failed setup step.
#[derive(Debug)]
pub struct SetupError {
    pub kind: FailureKind,
    pub message: String,
}

impl SetupError {
    /// Whether this is the failure of the given kind with the given words.
    pub open spec fn says(&self, kind: FailureKind, message: Seq<char>) -> bool {
        self.kind == kind && self.message@ == message
    }
}

/// `first + middle + last`.
pub(crate) fn sentence(first: &str, middle: &str, last: &str) -> (r: String)
    ensures
        r@ == first@ + middle@ + last@,
{
    let mut text = first.to_string();
    text.append(middle);
    text.append(last);
    text
}

pub open spec fn framebuffer_message(path: Seq<char>, os_error: Seq<char>) -> Seq<char> {
    "unable to open framebuffer "@ + path + ": "@ + os_error
        + " (the Sense HAT matrix is the /dev/fb* whose /sys/class/graphics/<fb>/name reads \"RPi-Sense FB\"; the index is not stable across boots or HDMI state)"@
}

/// The failure to open the framebuffer: the kind of its cause, with the path
/// named and a hint where to look for it.
pub fn framebuffer_error(path: &str, cause: SetupError) -> (e: SetupError)
    ensures
        e.says(cause.kind, framebuffer_message(path@, cause.message@)),
{
    let mut message = sentence("unable to open framebuffer ", path, ": ");
    message.append(cause.message.as_str());
    message.append(
        " (the Sense HAT matrix is the /dev/fb* whose /sys/class/graphics/<fb>/name reads \"RPi-Sense FB\"; the index is not stable across boots or HDMI state)",
    );
    SetupError { kind: cause.kind, message }
}

pub open spec fn publisher_message(
    path: Seq<char>,
    owner: Seq<char>,
    cause: Seq<char>,
) -> Seq<char> {
    "unable to initialize signal socket publisher on "@ + path + " for owner "@ + owner + ": "@
        + cause
}

/// The failure to set up the signal socket: the kind of its cause, with the
/// path and the owner named.
pub fn publisher_error(path: &str, owner: &str, cause: SetupError) -> (e: SetupError)
    ensures
        e.says(cause.kind, publisher_message(path@, owner@, cause.message@)),
{
    let mut message = sentence("unable to initialize signal socket publisher on ", path, " for owner ");
    message.append(owner);
    message.append(": ");
    message.append(cause.message.as_str());
    SetupError { kind: cause.kind, message }
}

} // verus!
