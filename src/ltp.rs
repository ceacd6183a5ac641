use vstd::prelude::*;
use vstd::string::*;

verus! {

/// The commands of the LITS text protocol.
#[derive(Clone, Copy, Debug, PartialEq, Eq, Structural)]
pub enum LtpCommand {
    /// Initializes the backing engine.
    Initialize,
    /// Halts the backing engine.
    Shutdown,
    /// Applies a board position given by its notation.
    ApplySetupPosition,
    /// Starts a new game with a blank scoring set.
    NewGame,
    /// Places a tetromino, provided it is legal.
    PlaceTetromino,
    /// Undoes the last move, provided one exists.
    Undo,
    /// Reports X's favour over the course of the game.
    AnalyzePosition,
    /// Aborts a running move search early.
    CancelSearch,
    /// Gets the best move for the side to move.
    GenMove,
}

/// The protocol word of each command.
pub open spec fn command_text(c: LtpCommand) -> Seq<char> {
    match c {
        LtpCommand::Initialize => "initialize"@,
        LtpCommand::Shutdown => "shutdown"@,
        LtpCommand::ApplySetupPosition => "setup-position"@,
        LtpCommand::NewGame => "new-game"@,
        LtpCommand::PlaceTetromino => "play-move"@,
        LtpCommand::Undo => "undo-move"@,
        LtpCommand::AnalyzePosition => "analyze-board"@,
        LtpCommand::CancelSearch => "cancel-search"@,
        LtpCommand::GenMove => "gen-move"@,
    }
}

impl LtpCommand {
    /// Maps this command to its protocol word.
    pub fn command(&self) -> (r: String)
        ensures
            r@ == command_text(*self),
    {
        match self {
            LtpCommand::Initialize => String::from_str("initialize"),
            LtpCommand::Shutdown => String::from_str("shutdown"),
            LtpCommand::ApplySetupPosition => String::from_str("setup-position"),
            LtpCommand::NewGame => String::from_str("new-game"),
            LtpCommand::PlaceTetromino => String::from_str("play-move"),
            LtpCommand::Undo => String::from_str("undo-move"),
            LtpCommand::AnalyzePosition => String::from_str("analyze-board"),
            LtpCommand::CancelSearch => String::from_str("cancel-search"),
            LtpCommand::GenMove => String::from_str("gen-move"),
        }
    }

    /// Determines whether callers of this command should expect a response.
    pub fn expects_response(&self) -> (r: bool)
        ensures
            r == (*self == LtpCommand::AnalyzePosition || *self == LtpCommand::GenMove),
    {
        match self {
            LtpCommand::AnalyzePosition | LtpCommand::GenMove => true,
            _ => false,
        }
    }
}

} // verus!
