use vstd::prelude::*;

verus! {

/// The two sides of a game.
#[derive(PartialEq, Eq, Structural, Debug, Copy, Clone, Hash)]
pub enum Colour {
    Black,
    White,
}

impl Colour {
    /// The other side.
    pub open spec fn opposite(self) -> Colour {
        match self {
            Colour::White => Colour::Black,
            Colour::Black => Colour::White,
        }
    }

    pub fn is_same(&self, other: &Colour) -> (same: bool)
        ensures
            same == (*self == *other),
    {
        *self == *other
    }

    pub fn is_opposite(&self, other: &Colour) -> (different: bool)
        ensures
            different == (*self != *other),
            different == (*other == self.opposite()),
    {
        !self.is_same(other)
    }

    pub fn get_opposite(&self) -> (other: Colour)
        ensures
            other == self.opposite(),
            other != *self,
            other.opposite() == *self,
    {
        match self {
            Colour::White => Colour::Black,
            Colour::Black => Colour::White,
        }
    }

    /// The lower-case English name of the colour.
    pub fn name(&self) -> (text: &'static str)
        ensures
            text@ == (match *self {
                Colour::White => "white"@,
                Colour::Black => "black"@,
            }),
    {
        match self {
            Colour::White => "white",
            Colour::Black => "black",
        }
    }
}

} // verus!
