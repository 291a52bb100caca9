//! The failures the library reports.

use vstd::prelude::*;

verus! {

/// A failure, with a message for the operator.
///
/// `Internal` marks a broken invariant, an unknown code on the wire or an
/// exhausted retry budget, and is fatal to the call in flight. `Value` is a
/// failure of a query in its own terms (a missing key, a missing value) and
/// travels as data in a query result.
#[derive(Debug)]
pub enum Error {
    Internal(String),
    Value(String),
}

pub type Result<T> = core::result::Result<T, Error>;

impl Error {
    /// The text carried by the failure.
    pub open spec fn message(&self) -> Seq<char> {
        match self {
            Error::Internal(text) => text@,
            Error::Value(text) => text@,
        }
    }

    /// An internal failure with exactly this message.
    pub open spec fn is_internal(&self, text: Seq<char>) -> bool {
        self matches Error::Internal(message) && message@ == text
    }

    /// A domain failure with exactly this message.
    pub open spec fn is_value(&self, text: Seq<char>) -> bool {
        self matches Error::Value(message) && message@ == text
    }

    /// The message as an owned string.
    pub fn to_string(&self) -> (text: String)
        ensures
            text@ == self.message(),
    {
        match self {
            Error::Internal(text) => text.clone(),
            Error::Value(text) => text.clone(),
        }
    }
}

} // verus!
