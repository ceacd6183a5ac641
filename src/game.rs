use vstd::prelude::*;

use crate::board::{Board, BoardView, blank_view, place_model, undo_check, undo_model, validation};
use crate::error::LitsError;
use crate::player::Player;
use crate::point::{cell_of, on_board};
use crate::tetromino::{Tetromino, TetrominoView, views};

verus! {

/// The state of a game.
pub struct GameView {
    /// The board being played on.
    pub curr: BoardView,
    /// The setup the game started from.
    pub base: BoardView,
    /// Moves played, the latest last.
    pub hist: Seq<TetrominoView>,
    /// Moves taken back, the next to replay last.
    pub redo: Seq<TetrominoView>,
}

impl GameView {
    /// Both boards well formed and every recorded move well formed.
    pub open spec fn wf(self) -> bool {
        &&& self.curr.wf()
        &&& self.base.wf()
        &&& forall|i: int| 0 <= i < self.hist.len() ==> (#[trigger] self.hist[i]).wf()
        &&& forall|i: int| 0 <= i < self.redo.len() ==> (#[trigger] self.redo[i]).wf()
    }
}

/// A board of The Battle of LITS wrapped into a game with a linear history.
///
/// A move taken back goes to the redo stack. A move played goes to the
/// history; if it is the move on top of the redo stack, that one is popped,
/// otherwise the redo stack is cleared: a new move ends the old future.
///
/// The base board holds the setup (scoring tiles, and any pieces placed
/// outside the history); the current board is the position in play.
#[derive(Debug)]
pub struct Game {
    curr_board: Board,
    base_board: Board,
    hist_stack: Vec<Tetromino>,
    redo_stack: Vec<Tetromino>,
}

impl View for Game {
    type V = GameView;

    closed spec fn view(&self) -> GameView {
        GameView {
            curr: self.curr_board@,
            base: self.base_board@,
            hist: views(self.hist_stack@),
            redo: views(self.redo_stack@),
        }
    }
}

impl Game {
    /// Returns a blank starting game.
    pub fn new() -> (r: Game)
        ensures
            r@.wf(),
            r@.curr == blank_view(),
            r@.base == blank_view(),
            r@.hist.len() == 0,
            r@.redo.len() == 0,
    {
        let r = Game {
            base_board: Board::blank(),
            curr_board: Board::blank(),
            hist_stack: Vec::new(),
            redo_stack: Vec::new(),
        };
        assert(r@.hist =~= Seq::<TetrominoView>::empty());
        r
    }

    /// Applies the tetromino to the board if it is legal in this position.
    pub fn apply(&mut self, tetromino: &Tetromino) -> (r: Result<(), LitsError>)
        requires
            old(self)@.wf(),
            tetromino@.wf(),
        ensures
            r == validation(old(self)@.curr, tetromino@),
            final(self)@.wf(),
            r is Err ==> final(self)@ == old(self)@,
            r is Ok ==> final(self)@ == (GameView {
                curr: place_model(old(self)@.curr, tetromino@),
                hist: old(self)@.hist.push(tetromino@),
                redo: if old(self)@.redo.len() > 0 && old(self)@.redo.last() == tetromino@ {
                    old(self)@.redo.drop_last()
                } else {
                    Seq::empty()
                },
                ..old(self)@
            }),
    {
        let res = self.curr_board.place_tetromino(tetromino);
        match res {
            Ok(()) => {
                let ghost old_hist = self.hist_stack@;
                let ghost old_redo = self.redo_stack@;
                self.hist_stack.push(tetromino.clone());
                proof {
                    assert(views(self.hist_stack@) =~= views(old_hist).push(tetromino@));
                }
                let n = self.redo_stack.len();
                if n > 0 {
                    if self.redo_stack[n - 1] == *tetromino {
                        self.redo_stack.pop();
                        proof {
                            assert(views(self.redo_stack@) =~= views(old_redo).drop_last());
                        }
                    } else {
                        self.redo_stack.clear();
                        proof {
                            assert(views(self.redo_stack@) =~= Seq::<TetrominoView>::empty());
                        }
                    }
                } else {
                    proof {
                        assert(views(self.redo_stack@) =~= Seq::<TetrominoView>::empty());
                    }
                }
                Ok(())
            },
            Err(e) => Err(e),
        }
    }

    /// Undoes the last move played, moving it to the redo stack.
    pub fn undo(&mut self) -> (r: Result<(), LitsError>)
        requires
            old(self)@.wf(),
        ensures
            final(self)@.wf(),
            old(self)@.hist.len() == 0 ==> r == Err::<(), LitsError>(LitsError::HistoryEmpty),
            old(self)@.hist.len() > 0 ==> r == undo_check(old(self)@.curr, old(self)@.hist.last()),
            r is Err ==> final(self)@ == old(self)@,
            r is Ok ==> final(self)@ == (GameView {
                curr: undo_model(old(self)@.curr, old(self)@.hist.last()),
                hist: old(self)@.hist.drop_last(),
                redo: old(self)@.redo.push(old(self)@.hist.last()),
                ..old(self)@
            }),
    {
        let n = self.hist_stack.len();
        if n == 0 {
            return Err(LitsError::HistoryEmpty);
        }
        let tetromino = self.hist_stack[n - 1].clone();
        proof {
            assert(views(self.hist_stack@)[n - 1] == tetromino@);
            assert(tetromino@.wf());
        }
        match self.curr_board.undo_tetromino(&tetromino) {
            Err(e) => {
                return Err(e);
            },
            Ok(()) => {},
        }
        let ghost old_hist = self.hist_stack@;
        let ghost old_redo = self.redo_stack@;
        self.hist_stack.pop();
        self.redo_stack.push(tetromino);
        proof {
            assert(views(self.hist_stack@) =~= views(old_hist).drop_last());
            assert(views(self.redo_stack@) =~= views(old_redo).push(tetromino@));
        }
        Ok(())
    }

    /// Cycles the colour at a tile of the current board for setup purposes.
    pub fn cycle_colour(&mut self, i: i32, j: i32)
        requires
            old(self)@.wf(),
            on_board(i as int, j as int),
        ensures
            final(self)@.wf(),
            final(self)@.curr.pieces == old(self)@.curr.pieces.update(
                cell_of(i as int, j as int),
                old(self)@.curr.pieces[cell_of(i as int, j as int)].next_and_none_spec(),
            ),
            final(self)@.curr.score == old(self)@.curr.score,
            final(self)@.base == old(self)@.base,
            final(self)@.hist == old(self)@.hist,
            final(self)@.redo == old(self)@.redo,
    {
        let ghost before = self@;
        self.curr_board.cycle_colour(i, j);
        assert(self@.hist == before.hist && self@.redo == before.redo);
    }

    /// Cycles the owner of a tile of the current board for setup purposes.
    pub fn cycle_player(&mut self, i: i32, j: i32)
        requires
            old(self)@.wf(),
            on_board(i as int, j as int),
        ensures
            final(self)@.wf(),
            final(self)@.curr.score == old(self)@.curr.score.update(
                cell_of(i as int, j as int),
                old(self)@.curr.score[cell_of(i as int, j as int)].next_and_none_spec(),
            ),
            final(self)@.curr.pieces == old(self)@.curr.pieces,
            final(self)@.base == old(self)@.base,
            final(self)@.hist == old(self)@.hist,
            final(self)@.redo == old(self)@.redo,
    {
        let ghost before = self@;
        self.curr_board.cycle_player(i, j);
        assert(self@.hist == before.hist && self@.redo == before.redo);
    }

    /// Returns the current state of the board.
    pub fn get_board(&self) -> (r: &Board)
        ensures
            r@ == self@.curr,
    {
        &self.curr_board
    }

    /// Returns the setup board.
    pub fn get_board_base(&self) -> (r: &Board)
        ensures
            r@ == self@.base,
    {
        &self.base_board
    }

    /// Returns the moves taken back; the next one to replay is last.
    pub fn get_future(&self) -> (r: &Vec<Tetromino>)
        ensures
            views(r@) == self@.redo,
    {
        &self.redo_stack
    }

    /// Returns the moves played; the most recent one is last.
    pub fn get_history(&self) -> (r: &Vec<Tetromino>)
        ensures
            views(r@) == self@.hist,
    {
        &self.hist_stack
    }

    /// Sets the owner of a tile on both boards.
    pub fn set_scoring_tile(&mut self, i: usize, j: usize, player: &Player)
        requires
            old(self)@.wf(),
            i < 10,
            j < 10,
        ensures
            final(self)@.wf(),
            final(self)@.curr == (BoardView {
                score: old(self)@.curr.score.update(cell_of(i as int, j as int), *player),
                ..old(self)@.curr
            }),
            final(self)@.base == (BoardView {
                score: old(self)@.base.score.update(cell_of(i as int, j as int), *player),
                ..old(self)@.base
            }),
            final(self)@.hist == old(self)@.hist,
            final(self)@.redo == old(self)@.redo,
    {
        let ghost before = self@;
        self.base_board.set_scoring_tile(i, j, player);
        self.curr_board.set_scoring_tile(i, j, player);
        assert(self@.hist == before.hist && self@.redo == before.redo);
    }

    /// Determines the player to move in this game.
    pub fn to_move(&self) -> (r: Player)
        ensures
            r == self@.curr.to_move,
    {
        self.curr_board.to_move()
    }

    /// Returns a game that starts from the given setup, with no moves.
    pub fn from_setup(board: Board) -> (r: Game)
        requires
            board@.wf(),
        ensures
            r@.wf(),
            r@.base == board@,
            r@.curr == board@,
            r@.hist.len() == 0,
            r@.redo.len() == 0,
    {
        let r = Game { base_board: board.clone(), curr_board: board, hist_stack: Vec::new(), redo_stack: Vec::new() };
        assert(r@.hist =~= Seq::<TetrominoView>::empty());
        assert(r@.redo =~= Seq::<TetrominoView>::empty());
        r
    }
}

} // verus!
