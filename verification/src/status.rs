//! The line of information near the bottom of the screen.

use vstd::prelude::*;

verus! {

/// the status contains information written on the grey line
/// near the bottom of the screen
#[derive(Debug)]
pub struct Status {
    /// markdown
    pub message: String,
    /// is the current message an error?
    pub error: bool,
}

impl Status {
    pub fn from_message(message: String) -> (s: Status)
        ensures
            s.message@ == message@,
            !s.error,
    {
        Status { message, error: false }
    }

    pub fn from_error(message: String) -> (s: Status)
        ensures
            s.message@ == message@,
            s.error,
    {
        Status { message, error: true }
    }

    pub fn from(message: String, error: bool) -> (s: Status)
        ensures
            s.message@ == message@,
            s.error == error,
    {
        Status { message, error }
    }
}

} // verus!
