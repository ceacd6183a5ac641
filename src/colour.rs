use vstd::prelude::*;

verus! {

/// A piece type of The Battle of LITS, or `Empty` for an uncovered tile.
///
/// The shared pool holds five copies of each of the four shapes L, I, T and S.
#[derive(Clone, Copy, Debug, PartialEq, Eq, Structural, PartialOrd, Ord, Hash)]
pub enum Colour {
    L,
    I,
    T,
    S,
    Empty,
}

/// The piece colour with pool index `i` (0 to 3 in L, I, T, S order).
pub open spec fn colour_of_index(i: int) -> Colour {
    if i == 0 {
        Colour::L
    } else if i == 1 {
        Colour::I
    } else if i == 2 {
        Colour::T
    } else {
        Colour::S
    }
}

impl Colour {
    /// Pool index of a piece colour: L, I, T, S are 0, 1, 2, 3.
    pub open spec fn index(self) -> int {
        match self {
            Colour::L => 0,
            Colour::I => 1,
            Colour::T => 2,
            Colour::S => 3,
            Colour::Empty => 4,
        }
    }

    /// This colour is one of the four piece shapes.
    pub open spec fn is_piece(self) -> bool {
        self != Colour::Empty
    }

    /// Returns the index of this colour into the piece pool.
    pub fn as_index(&self) -> (r: usize)
        requires
            self.is_piece(),
        ensures
            r == self.index(),
            r < 4,
            colour_of_index(r as int) == *self,
    {
        match self {
            Colour::L => 0,
            Colour::I => 1,
            Colour::T => 2,
            _ => 3,
        }
    }

    /// Returns the index of this colour, with 0 for `Empty` and the pieces from 1.
    pub fn as_index_null(&self) -> (r: usize)
        ensures
            r == (if self.is_piece() { self.index() + 1 } else { 0 }),
    {
        match self {
            Colour::L => 1,
            Colour::I => 2,
            Colour::T => 3,
            Colour::S => 4,
            Colour::Empty => 0,
        }
    }

    /// The next colour in the cycle L, I, T, S, Empty, L.
    pub open spec fn next_and_none_spec(self) -> Colour {
        match self {
            Colour::L => Colour::I,
            Colour::I => Colour::T,
            Colour::T => Colour::S,
            Colour::S => Colour::Empty,
            Colour::Empty => Colour::L,
        }
    }

    /// Gets the next colour in the cycle L, I, T, S, Empty, L.
    pub fn next_and_none(&self) -> (r: Colour)
        ensures
            r == self.next_and_none_spec(),
    {
        match self {
            Colour::L => Colour::I,
            Colour::I => Colour::T,
            Colour::T => Colour::S,
            Colour::S => Colour::Empty,
            Colour::Empty => Colour::L,
        }
    }

    /// Returns a length-4 one-hot encoding for this colour in LITS order.
    pub fn one_hot(&self) -> (r: Vec<bool>)
        ensures
            r@ == seq![
                *self == Colour::L,
                *self == Colour::I,
                *self == Colour::T,
                *self == Colour::S,
            ],
    {
        let r = vec![
            *self == Colour::L,
            *self == Colour::I,
            *self == Colour::T,
            *self == Colour::S,
        ];
        assert(r@ =~= seq![
            *self == Colour::L,
            *self == Colour::I,
            *self == Colour::T,
            *self == Colour::S,
        ]);
        r
    }
}

} // verus!
