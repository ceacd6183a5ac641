use vstd::prelude::*;

verus! {

/// The result of a game. A decided game carries the final score in X's
/// frame: positive when X wins, negative or zero when O wins, zero for a win
/// that went to the last mover on a tie.
#[derive(Clone, Copy, Debug, PartialEq, Eq, Structural)]
pub enum Outcome {
    X(i32),
    O(i32),
    InProgress,
    Draw,
}

} // verus!
