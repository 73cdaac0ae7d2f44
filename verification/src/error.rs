//! The library's error: a message for the user.
use vstd::prelude::*;

verus! {

/// An error of the tool, carrying the message shown to the user.
#[derive(Clone, Debug, PartialEq, Eq)]
pub struct Error(pub String);

impl Error {
    /// The message of this error.
    pub fn message(&self) -> (m: &str)
        ensures
            m@ == self.0@,
    {
        self.0.as_str()
    }
}

} // verus!
