use vstd::prelude::*;

verus! {

/// A player of The Battle of LITS, or `Neither` for a neutral tile.
///
/// X and O each own a set of scoring tiles; each defends its own tiles by
/// keeping them uncovered and attacks the other's by covering them.
#[derive(Clone, Copy, Debug, PartialEq, Eq, Structural, PartialOrd, Ord, Hash)]
pub enum Player {
    X,
    O,
    Neither,
}

impl Player {
    /// The side whose turn it is can only be X or O.
    pub open spec fn is_side(self) -> bool {
        self != Player::Neither
    }

    /// The opposite side.
    pub open spec fn opponent(self) -> Player {
        match self {
            Player::X => Player::O,
            Player::O => Player::X,
            Player::Neither => Player::Neither,
        }
    }

    /// The value of a tile owned by this player, in X's frame.
    pub open spec fn spec_value(self) -> int {
        match self {
            Player::X => 1,
            Player::O => -1,
            Player::Neither => 0,
        }
    }

    /// Returns the player opposite this one.
    pub fn next(&self) -> (r: Player)
        requires
            self.is_side(),
        ensures
            r == self.opponent(),
            r.is_side(),
            r != *self,
    {
        match self {
            Player::X => Player::O,
            _ => Player::X,
        }
    }

    /// Returns the tile code of this player: 0 for `Neither`, 1 for X, 2 for O.
    pub fn as_index_null(&self) -> (r: usize)
        ensures
            r == (match *self {
                Player::Neither => 0usize,
                Player::X => 1usize,
                Player::O => 2usize,
            }),
    {
        match self {
            Player::Neither => 0,
            Player::X => 1,
            Player::O => 2,
        }
    }

    /// The next player in the cycle X, O, Neither, X.
    pub open spec fn next_and_none_spec(self) -> Player {
        match self {
            Player::X => Player::O,
            Player::O => Player::Neither,
            Player::Neither => Player::X,
        }
    }

    /// Gets the next player in the cycle X, O, Neither, X.
    pub fn next_and_none(&self) -> (r: Player)
        ensures
            r == self.next_and_none_spec(),
    {
        match self {
            Player::X => Player::O,
            Player::O => Player::Neither,
            Player::Neither => Player::X,
        }
    }

    /// Returns a length-2 one-hot encoding for this player, in XO order.
    pub fn one_hot(&self) -> (r: Vec<bool>)
        ensures
            r@ == seq![*self == Player::X, *self == Player::O],
    {
        let r = vec![*self == Player::X, *self == Player::O];
        assert(r@ =~= seq![*self == Player::X, *self == Player::O]);
        r
    }

    /// Returns the value factor of this player in X's frame: 1, -1, or 0.
    pub fn value(&self) -> (r: i32)
        ensures
            r == self.spec_value(),
    {
        match self {
            Player::X => 1,
            Player::O => -1,
            Player::Neither => 0,
        }
    }
}

} // verus!
