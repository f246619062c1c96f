//! The library's error type.

use vstd::prelude::*;

verus! {

/// What a library call reports when it refuses its input.
#[derive(Debug, Clone, PartialEq, Eq)]
pub enum AetherError {
    /// Any refused value; the message names it.
    Other(String),
    /// A refused zero trust (team) request.
    Api(String),
    /// The work was stopped by its cancel token.
    Cancelled,
}

impl AetherError {
    /// The text a user sees for this error.
    pub open spec fn message(&self) -> Seq<char> {
        match self {
            AetherError::Other(m) => m@,
            AetherError::Api(m) => m@,
            AetherError::Cancelled => "the operation was cancelled"@,
        }
    }

    /// The text a user sees for this error.
    pub fn to_string(&self) -> (r: String)
        ensures
            r@ == self.message(),
    {
        match self {
            AetherError::Other(m) => m.clone(),
            AetherError::Api(m) => m.clone(),
            AetherError::Cancelled => String::from_str("the operation was cancelled"),
        }
    }

    /// Whether this is the cancellation error.
    pub fn is_cancelled(&self) -> (r: bool)
        ensures
            r == (*self is Cancelled),
    {
        match self {
            AetherError::Cancelled => true,
            _ => false,
        }
    }
}

} // verus!
