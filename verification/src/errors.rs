//! The failure taxonomy of the board.

use vstd::prelude::*;

verus! {

/// Everything that can go wrong with a board operation.
#[derive(Debug, Clone, Copy, PartialEq, Eq, Structural)]
pub enum BoardError {
    /// The store could not perform a read or write.
    StoreFailure,
    /// A reply referenced a thread that does not exist.
    InvalidParent,
    /// The requested thread does not exist.
    NotFound,
    /// A reply was durably created, but the bump of its parent thread's
    /// activity timestamp failed afterwards.
    PartialFailure,
}

impl BoardError {
    /// A short human-readable description of the failure.
    pub fn describe(&self) -> (r: &'static str)
        ensures
            r@ == match self {
                BoardError::StoreFailure => "store failure"@,
                BoardError::InvalidParent => "invalid parent thread"@,
                BoardError::NotFound => "thread not found"@,
                BoardError::PartialFailure => "reply created but thread timestamp not updated"@,
            },
    {
        match self {
            BoardError::StoreFailure => "store failure",
            BoardError::InvalidParent => "invalid parent thread",
            BoardError::NotFound => "thread not found",
            BoardError::PartialFailure => "reply created but thread timestamp not updated",
        }
    }
}

} // verus!
