//! A single grid intersection: empty, or holding one piece of either color.

use vstd::prelude::*;

use crate::utils::{Error, ErrorKind};

verus! {

/// The two piece colors.
#[derive(Copy, Clone, PartialEq, Eq, Debug, Structural)]
pub enum ChessType {
    CtBlack,
    CtWhite,
}

impl ChessType {
    /// The opposing color.
    pub fn get_another(&self) -> (other: ChessType)
        ensures
            other == self.spec_another(),
    {
        match *self {
            ChessType::CtBlack => ChessType::CtWhite,
            ChessType::CtWhite => ChessType::CtBlack,
        }
    }

    /// The opposing color, as a specification value.
    pub open spec fn spec_another(self) -> ChessType {
        match self {
            ChessType::CtBlack => ChessType::CtWhite,
            ChessType::CtWhite => ChessType::CtBlack,
        }
    }

    /// A short human-readable name for the color.
    pub fn to_string(&self) -> (s: &'static str)
        ensures
            *self == ChessType::CtBlack ==> s@ == "black chess"@,
            *self == ChessType::CtWhite ==> s@ == "white chess"@,
    {
        match *self {
            ChessType::CtBlack => "black chess",
            ChessType::CtWhite => "white chess",
        }
    }
}

/// One intersection of the grid. Its whole state is the optional occupant.
#[derive(Copy, Clone, Debug)]
pub struct CrossPoint {
    status: Option<ChessType>,
}

impl CrossPoint {
    /// The occupancy state: `None` when empty, `Some(color)` when occupied.
    pub closed spec fn chess_state(self) -> Option<ChessType> {
        self.status
    }

    /// An empty intersection.
    pub fn new() -> (cp: CrossPoint)
        ensures
            cp.chess_state() is None,
    {
        CrossPoint { status: None }
    }

    /// An intersection already holding a piece of the given color.
    pub fn create_by_chess(chess: ChessType) -> (cp: CrossPoint)
        ensures
            cp.chess_state() == Some(chess),
    {
        CrossPoint { status: Some(chess) }
    }

    /// True iff the intersection is occupied.
    pub fn have_chess(&self) -> (b: bool)
        ensures
            b == self.chess_state() is Some,
    {
        self.status.is_some()
    }

    /// The current occupant, if any.
    pub fn get_chess(&self) -> (c: Option<ChessType>)
        ensures
            c == self.chess_state(),
    {
        self.status
    }

    /// Places a piece; reports a state conflict if the cell is occupied.
    pub fn put_chess(&mut self, chess: ChessType) -> (r: Result<(), Error>)
        ensures
            old(self).chess_state() is None ==> r is Ok
                && final(self).chess_state() == Some(chess),
            old(self).chess_state() is Some ==> (r matches Err(e) && e.kind
                == ErrorKind::StateConflict) && *final(self) == *old(self),
    {
        if self.status.is_some() {
            return Err(Error::create(
                ErrorKind::StateConflict,
                "can not put chess in the nonempty cross point",
            ));
        }

        self.status = Some(chess);
        Ok(())
    }

    /// Removes the piece; reports a state conflict if the cell is empty.
    pub fn remove_chess(&mut self) -> (r: Result<(), Error>)
        ensures
            old(self).chess_state() is Some ==> r is Ok
                && final(self).chess_state() is None,
            old(self).chess_state() is None ==> (r matches Err(e) && e.kind
                == ErrorKind::StateConflict) && *final(self) == *old(self),
    {
        if self.status.is_none() {
            return Err(Error::create(
                ErrorKind::StateConflict,
                "there are no chess to remove in the cross point",
            ));
        }

        self.status = None;
        Ok(())
    }

    /// Sets the occupant unconditionally, whatever was there before.
    pub fn override_with(&mut self, chess: ChessType)
        ensures
            final(self).chess_state() == Some(chess),
    {
        self.status = Some(chess);
    }

    /// Empties the intersection unconditionally; empty stays empty.
    pub fn clear(&mut self)
        ensures
            final(self).chess_state() is None,
    {
        self.status = None;
    }

    /// A short human-readable name for the occupancy state.
    pub fn to_string(&self) -> (s: &'static str)
        ensures
            self.chess_state() == Some(ChessType::CtBlack) ==> s@ == "black chess"@,
            self.chess_state() == Some(ChessType::CtWhite) ==> s@ == "white chess"@,
            self.chess_state() is None ==> s@ == "empty"@,
    {
        match self.status {
            Some(chess) => chess.to_string(),
            None => "empty",
        }
    }
}

} // verus!
