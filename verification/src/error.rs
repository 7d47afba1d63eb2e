//! The error value every fallible operation returns.

use vstd::prelude::*;
use vstd::string::*;

verus! {

/// A machine-readable `code` (such as `not_open`) and a message for people.
#[derive(Debug)]
pub struct TrunkError {
    pub code: String,
    pub message: String,
}

impl TrunkError {
    /// Builds an error from a code and a message.
    pub fn new(code: &str, message: &str) -> (e: TrunkError)
        ensures
            e.code@ == code@,
            e.message@ == message@,
    {
        TrunkError { code: code.to_owned(), message: message.to_owned() }
    }

    /// Builds an error from a code and an owned message.
    pub fn with_message(code: &str, message: String) -> (e: TrunkError)
        ensures
            e.code@ == code@,
            e.message@ == message@,
    {
        TrunkError { code: code.to_owned(), message }
    }
}

} // verus!
