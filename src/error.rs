use vstd::prelude::*;

verus! {

/// Why an operation of the rules kernel was refused.
#[derive(Clone, Copy, Debug, PartialEq, Eq, Structural)]
pub enum LitsError {
    /// The text is not valid notation.
    Parse,
    /// No copy of the piece's colour is left to play.
    NoSuchPiece,
    /// A tile of the piece lies off the board.
    OutOfBounds,
    /// A tile of the piece covers a covered tile.
    Overlap,
    /// No tile of the piece is an attach point.
    NoAttach,
    /// The piece touches a piece of its own colour.
    SameColourAdjacent,
    /// The piece would complete a 2x2 block of covered tiles.
    FormsO,
    /// Every copy of the piece's colour is already in the pool.
    NoRemainingUndo,
    /// The piece does not stand on the board.
    PieceNotOnBoard,
    /// There is no move to undo.
    HistoryEmpty,
    /// A pool count is above five.
    InvalidPieceCount,
    /// The shape of the points is not that of the piece.
    InvalidShape,
}

} // verus!
