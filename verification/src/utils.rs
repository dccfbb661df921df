//! Error values shared by the board and the rule checker.

use vstd::prelude::*;

verus! {

/// The three failure conditions the core can report, kept distinct so that a
/// caller can always tell an out-of-range index from a cell-state conflict
/// from an ordinary "no neighbor that way" outcome at a board edge.
#[derive(Copy, Clone, PartialEq, Eq, Debug, Structural)]
pub enum ErrorKind {
    /// A flat index at or beyond the board's cell count.
    IndexInvalid,
    /// Placing on an occupied cell, or removing from an empty one.
    StateConflict,
    /// A move in a direction that would leave the grid.
    NoNeighbor,
}

/// An error report: the condition that failed plus a short description.
#[derive(Copy, Clone, Debug)]
pub struct Error {
    pub kind: ErrorKind,
    pub message: &'static str,
}

impl Error {
    pub fn create(kind: ErrorKind, message: &'static str) -> (e: Error)
        ensures
            e.kind == kind,
            e.message == message,
    {
        Error { kind, message }
    }
}

} // verus!
