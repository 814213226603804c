use vstd::prelude::*;

verus! {

/// A cell value: a token of one of the two players, or `White` for an
/// empty cell.
#[derive(Clone, Copy, PartialEq, Eq, Structural, Debug)]
pub enum Pawn {
    Red,
    Blue,
    White,
}

impl Pawn {
    /// True for the two player colors, false for the empty marker.
    pub open spec fn is_player(self) -> bool {
        self is Red || self is Blue
    }

    /// The color the turn passes to: red to blue, blue to red.
    /// `White` is not a player and stays `White`.
    pub open spec fn switched(self) -> Pawn {
        match self {
            Pawn::Red => Pawn::Blue,
            Pawn::Blue => Pawn::Red,
            Pawn::White => Pawn::White,
        }
    }

    /// Switch the color of the pawn, red to blue, blue to red.
    pub fn switch(&mut self)
        ensures
            *final(self) == old(self).switched(),
    {
        *self = match self {
            Pawn::Red => Pawn::Blue,
            Pawn::Blue => Pawn::Red,
            Pawn::White => Pawn::White,
        }
    }
}

} // verus!
