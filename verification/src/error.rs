//! The ways in which a caller can ask for something that no list has.

use vstd::prelude::*;

verus! {

/// A request that the addressed list cannot serve.
#[derive(Debug, Clone, Copy, PartialEq, Eq, Hash, Structural)]
pub enum Error {
    /// A cursor was asked for over no items at all.
    EmptyList,
    /// Position `index` was named in a list of only `len` items.
    IndexOutOfRange { index: usize, len: usize },
}

impl Error {
    /// A short description for a log line or a panic message.
    pub fn message(&self) -> (s: String)
        ensures
            s@ == match *self {
                Error::EmptyList => "LoopVec cannot construct from empty vec."@,
                Error::IndexOutOfRange { .. } => "select index out of range"@,
            },
    {
        match self {
            Error::EmptyList => "LoopVec cannot construct from empty vec.".to_string(),
            Error::IndexOutOfRange { .. } => "select index out of range".to_string(),
        }
    }
}

} // verus!
