use vstd::prelude::*;

use crate::board::{Board, BoardView, blank_view, lemma_cell, lemma_real_min, place_model, score_of, validation};
use crate::colour::{Colour, colour_of_index};
use crate::outcome::Outcome;
use crate::player::Player;
use crate::point::{Point, cell_of, on_board};
use crate::tetromino::{Tetromino, TetrominoView, lemma_wf_points, null_view, placement, views};
use crate::transform::{Transform, lemma_min_bounds, min_x, min_y};

verus! {

/// The order in which a colour's canonical transforms are tried at one anchor:
/// by the lexicographic order of the resulting relative points, so that the
/// moves come out sorted like the tetrominoes themselves.
pub open spec fn placement_order(c: Colour) -> Seq<Transform> {
    match c {
        Colour::I => seq![Transform::Identity, Transform::IdenRot90],
        Colour::T => seq![
            Transform::Identity,
            Transform::IdenRot90,
            Transform::IdenRot270,
            Transform::IdenRot180,
        ],
        Colour::S => seq![
            Transform::Identity,
            Transform::ReflRot90,
            Transform::IdenRot90,
            Transform::Reflect,
        ],
        _ => seq![
            Transform::Identity,
            Transform::ReflRot90,
            Transform::IdenRot90,
            Transform::ReflRot180,
            Transform::Reflect,
            Transform::IdenRot180,
            Transform::IdenRot270,
            Transform::ReflRot270,
        ],
    }
}

/// The `j`-th placement of colour `c` anchored at cell `k`.
pub open spec fn candidate(c: Colour, k: int, j: int) -> TetrominoView {
    placement(c, Point { x: (k / 10) as i32, y: (k % 10) as i32 }, placement_order(c)[j])
}

/// The legal placements among the first `n` of colour `c` at cell `k`.
pub open spec fn moves_in_cell(b: BoardView, c: Colour, k: int, n: int) -> Seq<TetrominoView>
    decreases n,
{
    if n <= 0 {
        Seq::empty()
    } else {
        let prev = moves_in_cell(b, c, k, n - 1);
        let t = candidate(c, k, n - 1);
        if validation(b, t) is Ok {
            prev.push(t)
        } else {
            prev
        }
    }
}

/// The legal placements of colour `c` anchored at cells below `k`.
pub open spec fn moves_of_colour(b: BoardView, c: Colour, k: int) -> Seq<TetrominoView>
    decreases k,
{
    if k <= 0 {
        Seq::empty()
    } else {
        moves_of_colour(b, c, k - 1) + moves_in_cell(b, c, k - 1, placement_order(c).len() as int)
    }
}

/// The legal placements of the first `n` colours in L, I, T, S order.
pub open spec fn moves_upto(b: BoardView, n: int) -> Seq<TetrominoView>
    decreases n,
{
    if n <= 0 {
        Seq::empty()
    } else {
        moves_upto(b, n - 1) + moves_of_colour(b, colour_of_index(n - 1), 100)
    }
}

/// Every legal move of the board: by colour, then anchor cell, then
/// `placement_order`.
pub open spec fn legal_moves(b: BoardView) -> Seq<TetrominoView> {
    moves_upto(b, 4)
}

/// The result of the game on a board: in progress while a move is legal;
/// else X wins on a positive score, O on a negative one, and a zero score
/// goes to the side that moved last.
pub open spec fn result_of(b: BoardView) -> Outcome {
    if legal_moves(b).len() > 0 {
        Outcome::InProgress
    } else {
        let s = score_of(b);
        if s > 0 {
            Outcome::X(s as i32)
        } else if s < 0 {
            Outcome::O(s as i32)
        } else if b.to_move.opponent() == Player::X {
            Outcome::X(0)
        } else {
            Outcome::O(0)
        }
    }
}

/// The proven outcome of a finished game for the side to move there: a win
/// when the result goes to it, a loss otherwise; nothing while a move is legal.
pub open spec fn finished_outcome_of(b: BoardView) -> Option<crate::search::Outcome> {
    match result_of(b) {
        Outcome::X(_) => Some(if b.to_move == Player::X { crate::search::Outcome::Win } else { crate::search::Outcome::Loss }),
        Outcome::O(_) => Some(if b.to_move == Player::O { crate::search::Outcome::Win } else { crate::search::Outcome::Loss }),
        _ => None,
    }
}

/// Every tetromino in the sequence passes validation.
pub open spec fn all_valid(b: BoardView, s: Seq<TetrominoView>) -> bool {
    forall|i: int| 0 <= i < s.len() ==> validation(b, #[trigger] s[i]) is Ok
}

/// The placement order holds each canonical transform of the colour, and only those.
pub proof fn lemma_placement_order(c: Colour)
    requires
        c.is_piece(),
    ensures
        forall|t: Transform| t.is_canonical(c) ==> placement_order(c).contains(t),
        forall|j: int| 0 <= j < placement_order(c).len() ==> (#[trigger] placement_order(c)[j]).is_canonical(c),
{
    let s = placement_order(c);
    assert forall|t: Transform| t.is_canonical(c) implies s.contains(t) by {
        let j: int = if c == Colour::L {
            match t {
                Transform::Identity => 0,
                Transform::ReflRot90 => 1,
                Transform::IdenRot90 => 2,
                Transform::ReflRot180 => 3,
                Transform::Reflect => 4,
                Transform::IdenRot180 => 5,
                Transform::IdenRot270 => 6,
                _ => 7,
            }
        } else if c == Colour::I {
            match t {
                Transform::Identity => 0,
                _ => 1,
            }
        } else if c == Colour::T {
            match t {
                Transform::Identity => 0,
                Transform::IdenRot90 => 1,
                Transform::IdenRot270 => 2,
                _ => 3,
            }
        } else {
            match t {
                Transform::Identity => 0,
                Transform::ReflRot90 => 1,
                Transform::IdenRot90 => 2,
                _ => 3,
            }
        };
        assert(s[j] == t);
    }
}

/// The placements that the enumeration yields are legal.
pub proof fn lemma_moves_valid(b: BoardView, n: int)
    ensures
        all_valid(b, moves_upto(b, n)),
    decreases n,
{
    if n > 0 {
        lemma_moves_valid(b, n - 1);
        let c = colour_of_index(n - 1);
        lemma_colour_moves_valid(b, c, 100);
        let a = moves_upto(b, n - 1);
        let m = moves_of_colour(b, c, 100);
        assert forall|i: int| 0 <= i < (a + m).len() implies validation(b, #[trigger] (a + m)[i]) is Ok by {
            if i >= a.len() {
                assert((a + m)[i] == m[i - a.len()]);
            }
        }
    }
}

proof fn lemma_colour_moves_valid(b: BoardView, c: Colour, k: int)
    ensures
        all_valid(b, moves_of_colour(b, c, k)),
    decreases k,
{
    if k > 0 {
        lemma_colour_moves_valid(b, c, k - 1);
        let n = placement_order(c).len() as int;
        lemma_cell_moves_valid(b, c, k - 1, n);
        let a = moves_of_colour(b, c, k - 1);
        let m = moves_in_cell(b, c, k - 1, n);
        assert forall|i: int| 0 <= i < (a + m).len() implies validation(b, #[trigger] (a + m)[i]) is Ok by {
            if i >= a.len() {
                assert((a + m)[i] == m[i - a.len()]);
            }
        }
    }
}

proof fn lemma_cell_moves_valid(b: BoardView, c: Colour, k: int, n: int)
    ensures
        all_valid(b, moves_in_cell(b, c, k, n)),
    decreases n,
{
    if n > 0 {
        lemma_cell_moves_valid(b, c, k, n - 1);
    }
}

proof fn lemma_cell_moves_contain(b: BoardView, c: Colour, k: int, n: int, j: int)
    requires
        0 <= j < n,
        validation(b, candidate(c, k, j)) is Ok,
    ensures
        moves_in_cell(b, c, k, n).contains(candidate(c, k, j)),
    decreases n,
{
    if j < n - 1 {
        lemma_cell_moves_contain(b, c, k, n - 1, j);
        let prev = moves_in_cell(b, c, k, n - 1);
        let i = choose|i: int| 0 <= i < prev.len() && prev[i] == candidate(c, k, j);
        if validation(b, candidate(c, k, n - 1)) is Ok {
            assert(prev.push(candidate(c, k, n - 1))[i] == candidate(c, k, j));
        }
    } else {
        let prev = moves_in_cell(b, c, k, n - 1);
        assert(moves_in_cell(b, c, k, n)[prev.len() as int] == candidate(c, k, j));
    }
}

proof fn lemma_colour_moves_contain(b: BoardView, c: Colour, m: int, k: int, t: TetrominoView)
    requires
        0 <= k < m,
        moves_in_cell(b, c, k, placement_order(c).len() as int).contains(t),
    ensures
        moves_of_colour(b, c, m).contains(t),
    decreases m,
{
    let a = moves_of_colour(b, c, m - 1);
    let s = moves_in_cell(b, c, m - 1, placement_order(c).len() as int);
    if k < m - 1 {
        lemma_colour_moves_contain(b, c, m - 1, k, t);
        let i = choose|i: int| 0 <= i < a.len() && a[i] == t;
        assert((a + s)[i] == t);
    } else {
        let i = choose|i: int| 0 <= i < s.len() && s[i] == t;
        assert((a + s)[a.len() + i] == t);
    }
}

proof fn lemma_upto_contain(b: BoardView, m: int, ci: int, t: TetrominoView)
    requires
        0 <= ci < m,
        moves_of_colour(b, colour_of_index(ci), 100).contains(t),
    ensures
        moves_upto(b, m).contains(t),
    decreases m,
{
    let a = moves_upto(b, m - 1);
    let s = moves_of_colour(b, colour_of_index(m - 1), 100);
    if ci < m - 1 {
        lemma_upto_contain(b, m - 1, ci, t);
        let i = choose|i: int| 0 <= i < a.len() && a[i] == t;
        assert((a + s)[i] == t);
    } else {
        let i = choose|i: int| 0 <= i < s.len() && s[i] == t;
        assert((a + s)[a.len() + i] == t);
    }
}

/// A well-formed legal tetromino is one of the enumeration's candidates.
pub proof fn lemma_valid_is_candidate(b: BoardView, t: TetrominoView)
    requires
        b.wf(),
        t.wf(),
        validation(b, t) is Ok,
    ensures
        exists|ci: int, k: int, j: int|
            0 <= ci < 4 && 0 <= k < 100 && 0 <= j < placement_order(colour_of_index(ci)).len() && t
                == #[trigger] candidate(colour_of_index(ci), k, j),
{
    lemma_wf_points(t);
    lemma_real_min(t);
    let rp = t.real_points();
    assert forall|i: int| 0 <= i < rp.len() implies (#[trigger] rp[i]).on() by {
        if !rp[i].on() {
            assert(validation(b, t) == Err::<(), crate::error::LitsError>(crate::error::LitsError::OutOfBounds));
        }
    }
    lemma_min_bounds(rp);
    let kx = choose|k: int| 0 <= k < rp.len() && min_x(rp) == (#[trigger] rp[k]).x;
    let ky = choose|k: int| 0 <= k < rp.len() && min_y(rp) == (#[trigger] rp[k]).y;
    assert(rp[kx].on() && rp[ky].on());
    let ax = t.anchor.x as int;
    let ay = t.anchor.y as int;
    assert(on_board(ax, ay));
    let k = cell_of(ax, ay);
    lemma_cell(ax, ay);
    let c = t.colour;
    lemma_placement_order(c);
    let j = choose|j: int| 0 <= j < placement_order(c).len() && placement_order(c)[j] == t.transform;
    let ci = c.index();
    assert(colour_of_index(ci) == c);
    assert(candidate(colour_of_index(ci), k, j) == t);
}

/// The enumerated moves are well formed.
pub proof fn lemma_legal_moves_wf(b: BoardView)
    ensures
        forall|i: int| 0 <= i < legal_moves(b).len() ==> (#[trigger] legal_moves(b)[i]).wf(),
{
    lemma_upto_wf(b, 4);
}

proof fn lemma_upto_wf(b: BoardView, n: int)
    requires
        0 <= n <= 4,
    ensures
        forall|i: int| 0 <= i < moves_upto(b, n).len() ==> (#[trigger] moves_upto(b, n)[i]).wf(),
    decreases n,
{
    if n > 0 {
        lemma_upto_wf(b, n - 1);
        lemma_colour_moves_wf(b, n - 1, 100);
        let a = moves_upto(b, n - 1);
        let s = moves_of_colour(b, colour_of_index(n - 1), 100);
        assert forall|i: int| 0 <= i < (a + s).len() implies (#[trigger] (a + s)[i]).wf() by {
            if i >= a.len() {
                assert((a + s)[i] == s[i - a.len()]);
            }
        }
    }
}

proof fn lemma_colour_moves_wf(b: BoardView, ci: int, m: int)
    requires
        0 <= ci < 4,
        0 <= m <= 100,
    ensures
        forall|i: int| 0 <= i < moves_of_colour(b, colour_of_index(ci), m).len() ==> (#[trigger] moves_of_colour(b, colour_of_index(ci), m)[i]).wf(),
    decreases m,
{
    if m > 0 {
        let c = colour_of_index(ci);
        lemma_colour_moves_wf(b, ci, m - 1);
        let n = placement_order(c).len() as int;
        lemma_cell_moves_shape(b, c, m - 1, n);
        let a = moves_of_colour(b, c, m - 1);
        let s = moves_in_cell(b, c, m - 1, n);
        assert forall|i: int| 0 <= i < (a + s).len() implies (#[trigger] (a + s)[i]).wf() by {
            if i >= a.len() {
                assert((a + s)[i] == s[i - a.len()]);
                let ii = i - a.len();
                let j = choose|j: int| 0 <= j < n && s[ii] == #[trigger] candidate(c, m - 1, j);
                lemma_candidate_wf(ci, m - 1, j);
            }
        }
    }
}

/// The enumeration's candidates are well formed.
pub proof fn lemma_candidate_wf(ci: int, k: int, j: int)
    requires
        0 <= ci < 4,
        0 <= k < 100,
        0 <= j < placement_order(colour_of_index(ci)).len(),
    ensures
        candidate(colour_of_index(ci), k, j).wf(),
{
    lemma_placement_order(colour_of_index(ci));
}

/// A tetromino is among the enumerated moves exactly when it passes validation.
pub proof fn lemma_legal_moves_exact(b: BoardView, t: TetrominoView)
    requires
        b.wf(),
        t.wf(),
    ensures
        legal_moves(b).contains(t) <==> validation(b, t) is Ok,
{
    lemma_moves_valid(b, 4);
    if legal_moves(b).contains(t) {
        let i = choose|i: int| 0 <= i < legal_moves(b).len() && legal_moves(b)[i] == t;
        assert(validation(b, legal_moves(b)[i]) is Ok);
    }
    if validation(b, t) is Ok {
        lemma_valid_is_candidate(b, t);
        let (ci, k, j) = choose|ci: int, k: int, j: int|
            0 <= ci < 4 && 0 <= k < 100 && 0 <= j < placement_order(colour_of_index(ci)).len() && t
                == #[trigger] candidate(colour_of_index(ci), k, j);
        let c = colour_of_index(ci);
        assert(c == t.colour);
        lemma_cell_moves_contain(b, c, k, placement_order(c).len() as int, j);
        lemma_colour_moves_contain(b, c, 100, k, t);
        lemma_upto_contain(b, 4, ci, t);
    }
}

/// The transforms of `placement_order`.
fn placement_order_vec(c: &Colour) -> (r: Vec<Transform>)
    ensures
        r@ == placement_order(*c),
{
    let r = match c {
        Colour::I => vec![Transform::Identity, Transform::IdenRot90],
        Colour::T => vec![
            Transform::Identity,
            Transform::IdenRot90,
            Transform::IdenRot270,
            Transform::IdenRot180,
        ],
        Colour::S => vec![
            Transform::Identity,
            Transform::ReflRot90,
            Transform::IdenRot90,
            Transform::Reflect,
        ],
        _ => vec![
            Transform::Identity,
            Transform::ReflRot90,
            Transform::IdenRot90,
            Transform::ReflRot180,
            Transform::Reflect,
            Transform::IdenRot180,
            Transform::IdenRot270,
            Transform::ReflRot270,
        ],
    };
    assert(r@ =~= placement_order(*c));
    r
}

/// The piece colour with pool index `i`.
fn colour_at_index(i: usize) -> (r: Colour)
    requires
        i < 4,
    ensures
        r == colour_of_index(i as int),
        r.is_piece(),
{
    if i == 0 {
        Colour::L
    } else if i == 1 {
        Colour::I
    } else if i == 2 {
        Colour::T
    } else {
        Colour::S
    }
}

impl Board {
    /// Returns every legal move in this position, by colour, then anchor
    /// cell, then `placement_order`, each once.
    pub fn enumerate_moves(&self) -> (r: Vec<Tetromino>)
        requires
            self@.wf(),
        ensures
            views(r@) == legal_moves(self@),
            forall|i: int| 0 <= i < r@.len() ==> (#[trigger] r@[i])@.wf(),
    {
        let ghost b = self@;
        let mut r: Vec<Tetromino> = Vec::new();
        let mut ci: usize = 0;
        while ci < 4
            invariant
                ci <= 4,
                b == self@,
                b.wf(),
                views(r@) == moves_upto(b, ci as int),
                forall|i: int| 0 <= i < r@.len() ==> (#[trigger] r@[i])@.wf(),
            decreases 4 - ci,
        {
            let colour = colour_at_index(ci);
            let order = placement_order_vec(&colour);
            proof {
                lemma_placement_order(colour);
                assert(moves_of_colour(b, colour, 0) =~= Seq::<TetrominoView>::empty());
                assert(views(r@) =~= moves_upto(b, ci as int) + moves_of_colour(b, colour, 0));
            }
            let mut k: usize = 0;
            while k < 100
                invariant
                    ci < 4,
                    k <= 100,
                    b == self@,
                    b.wf(),
                    colour == colour_of_index(ci as int),
                    colour.is_piece(),
                    order@ == placement_order(colour),
                    forall|j: int| 0 <= j < placement_order(colour).len() ==> (#[trigger] placement_order(colour)[j]).is_canonical(colour),
                    views(r@) == moves_upto(b, ci as int) + moves_of_colour(b, colour, k as int),
                    forall|i: int| 0 <= i < r@.len() ==> (#[trigger] r@[i])@.wf(),
                decreases 100 - k,
            {
                let anchor = Point::new((k / 10) as i32, (k % 10) as i32);
                let mut j: usize = 0;
                proof {
                    assert(views(r@) =~= moves_upto(b, ci as int) + moves_of_colour(b, colour, k as int)
                        + moves_in_cell(b, colour, k as int, 0));
                }
                while j < order.len()
                    invariant
                        ci < 4,
                        k < 100,
                        j <= order@.len(),
                        b == self@,
                        b.wf(),
                        colour == colour_of_index(ci as int),
                        colour.is_piece(),
                        anchor == (Point { x: (k / 10) as i32, y: (k % 10) as i32 }),
                        order@ == placement_order(colour),
                        forall|j: int| 0 <= j < placement_order(colour).len() ==> (#[trigger] placement_order(colour)[j]).is_canonical(colour),
                        views(r@) == moves_upto(b, ci as int) + moves_of_colour(b, colour, k as int)
                            + moves_in_cell(b, colour, k as int, j as int),
                        forall|i: int| 0 <= i < r@.len() ==> (#[trigger] r@[i])@.wf(),
                    decreases order@.len() - j,
                {
                    let t = Tetromino::new(&colour, &anchor, &order[j]);
                    proof {
                        assert(order@[j as int].is_canonical(colour));
                        assert(t@ == candidate(colour, k as int, j as int));
                    }
                    let ghost before = r@;
                    if self.validate_tetromino(&t).is_ok() {
                        r.push(t);
                        proof {
                            assert(views(r@) =~= views(before).push(t@));
                        }
                    }
                    j = j + 1;
                    proof {
                        assert(views(r@) =~= moves_upto(b, ci as int) + moves_of_colour(b, colour, k as int)
                            + moves_in_cell(b, colour, k as int, j as int));
                    }
                }
                k = k + 1;
                proof {
                    assert(views(r@) =~= moves_upto(b, ci as int) + moves_of_colour(b, colour, k as int));
                }
            }
            ci = ci + 1;
            proof {
                assert(views(r@) =~= moves_upto(b, ci as int));
            }
        }
        r
    }

    /// Gets the result of the game in this position: in progress while a move
    /// is legal, else decided by the score, a tie going to the side that moved last.
    pub fn result(&self) -> (r: Outcome)
        requires
            self@.wf(),
        ensures
            r == result_of(self@),
    {
        if self.has_moves() {
            return Outcome::InProgress;
        }
        let score = self.score();
        if score > 0 {
            Outcome::X(score)
        } else if score < 0 {
            Outcome::O(score)
        } else if self.to_move().next() == Player::X {
            Outcome::X(0)
        } else {
            Outcome::O(0)
        }
    }

    /// Returns the proven outcome of this position for the side to move: none
    /// while a move is legal, else a win when the result goes to it.
    pub fn finished_outcome(&self) -> (r: Option<crate::search::Outcome>)
        requires
            self@.wf(),
        ensures
            r == finished_outcome_of(self@),
            r is None <==> legal_moves(self@).len() > 0,
    {
        let to_move = self.to_move();
        match self.result() {
            Outcome::X(_) => Some(if to_move == Player::X { crate::search::Outcome::Win } else { crate::search::Outcome::Loss }),
            Outcome::O(_) => Some(if to_move == Player::O { crate::search::Outcome::Win } else { crate::search::Outcome::Loss }),
            _ => None,
        }
    }

    /// Determines whether any move is legal in this position, stopping at the
    /// first legal candidate.
    pub fn has_moves(&self) -> (r: bool)
        requires
            self@.wf(),
        ensures
            r == (legal_moves(self@).len() > 0),
    {
        let ghost b = self@;
        let mut ci: usize = 0;
        while ci < 4
            invariant
                ci <= 4,
                b == self@,
                b.wf(),
                forall|a: int, m: int, q: int|
                    0 <= a < ci && 0 <= m < 100 && 0 <= q < placement_order(colour_of_index(a)).len() ==> !(
                    validation(b, #[trigger] candidate(colour_of_index(a), m, q)) is Ok),
            decreases 4 - ci,
        {
            let colour = colour_at_index(ci);
            let order = placement_order_vec(&colour);
            proof {
                lemma_placement_order(colour);
            }
            let mut k: usize = 0;
            while k < 100
                invariant
                    ci < 4,
                    k <= 100,
                    b == self@,
                    b.wf(),
                    colour == colour_of_index(ci as int),
                    colour.is_piece(),
                    order@ == placement_order(colour),
                    forall|j: int| 0 <= j < placement_order(colour).len() ==> (#[trigger] placement_order(colour)[j]).is_canonical(colour),
                    forall|a: int, m: int, q: int|
                        ((0 <= a < ci && 0 <= m < 100) || (a == ci && 0 <= m < k)) && 0 <= q < placement_order(colour_of_index(a)).len() ==> !(
                        validation(b, #[trigger] candidate(colour_of_index(a), m, q)) is Ok),
                decreases 100 - k,
            {
                let anchor = Point::new((k / 10) as i32, (k % 10) as i32);
                let mut j: usize = 0;
                while j < order.len()
                    invariant
                        ci < 4,
                        k < 100,
                        j <= order@.len(),
                        b == self@,
                        b.wf(),
                        colour == colour_of_index(ci as int),
                        colour.is_piece(),
                        anchor == (Point { x: (k / 10) as i32, y: (k % 10) as i32 }),
                        order@ == placement_order(colour),
                        forall|j: int| 0 <= j < placement_order(colour).len() ==> (#[trigger] placement_order(colour)[j]).is_canonical(colour),
                        forall|a: int, m: int, q: int|
                            ((0 <= a < ci && 0 <= m < 100) || (a == ci && 0 <= m < k) || (a == ci && m == k && q < j)) && 0 <= q
                                < placement_order(colour_of_index(a)).len() ==> !(validation(b, #[trigger] candidate(colour_of_index(a), m, q)) is Ok),
                    decreases order@.len() - j,
                {
                    let t = Tetromino::new(&colour, &anchor, &order[j]);
                    proof {
                        assert(order@[j as int].is_canonical(colour));
                        assert(t@ == candidate(colour, k as int, j as int));
                    }
                    if self.validate_tetromino(&t).is_ok() {
                        proof {
                            lemma_legal_moves_exact(b, t@);
                        }
                        return true;
                    }
                    j = j + 1;
                }
                k = k + 1;
            }
            ci = ci + 1;
        }
        proof {
            if legal_moves(b).len() > 0 {
                let e = legal_moves(b)[0];
                lemma_moves_valid(b, 4);
                assert(validation(b, legal_moves(b)[0]) is Ok);
                lemma_legal_moves_wf(b);
                lemma_valid_is_candidate(b, e);
            }
        }
        false
    }
}

/// Joining two sequences without duplicates that share no element gives a
/// sequence without duplicates.
proof fn lemma_concat_no_dup(a: Seq<TetrominoView>, s: Seq<TetrominoView>)
    requires
        a.no_duplicates(),
        s.no_duplicates(),
        forall|i: int, j: int| 0 <= i < a.len() && 0 <= j < s.len() ==> a[i] != s[j],
    ensures
        (a + s).no_duplicates(),
{
    let r = a + s;
    assert forall|i: int, j: int| 0 <= i < r.len() && 0 <= j < r.len() && i != j implies r[i] != r[j] by {
        if i < a.len() && j >= a.len() {
            assert(r[j] == s[j - a.len()]);
        } else if i >= a.len() && j < a.len() {
            assert(r[i] == s[i - a.len()]);
        } else if i >= a.len() && j >= a.len() {
            assert(r[i] == s[i - a.len()]);
            assert(r[j] == s[j - a.len()]);
        }
    }
}

proof fn lemma_placement_order_no_dup(c: Colour)
    ensures
        placement_order(c).no_duplicates(),
{
}

/// The moves at one cell are distinct placements at that cell.
proof fn lemma_cell_moves_shape(b: BoardView, c: Colour, k: int, n: int)
    requires
        0 <= k < 100,
        n <= placement_order(c).len(),
    ensures
        moves_in_cell(b, c, k, n).no_duplicates(),
        forall|i: int|
            0 <= i < moves_in_cell(b, c, k, n).len() ==> exists|j: int|
                0 <= j < n && #[trigger] moves_in_cell(b, c, k, n)[i] == candidate(c, k, j),
    decreases n,
{
    if n > 0 {
        lemma_cell_moves_shape(b, c, k, n - 1);
        lemma_placement_order_no_dup(c);
        let prev = moves_in_cell(b, c, k, n - 1);
        let t = candidate(c, k, n - 1);
        if validation(b, t) is Ok {
            let r = prev.push(t);
            assert forall|i: int| 0 <= i < r.len() implies exists|j: int|
                0 <= j < n && #[trigger] r[i] == candidate(c, k, j) by {
                if i < prev.len() {
                    let j = choose|j: int| 0 <= j < n - 1 && #[trigger] prev[i] == candidate(c, k, j);
                    assert(r[i] == candidate(c, k, j));
                } else {
                    assert(r[i] == candidate(c, k, n - 1));
                }
            }
            assert forall|i: int, i2: int| 0 <= i < r.len() && 0 <= i2 < r.len() && i != i2 implies r[i]
                != r[i2] by {
                if i == prev.len() || i2 == prev.len() {
                    let o = if i == prev.len() { i2 } else { i };
                    let j = choose|j: int| 0 <= j < n - 1 && #[trigger] prev[o] == candidate(c, k, j);
                    assert(placement_order(c)[j] != placement_order(c)[n - 1]);
                    assert(r[o] == prev[o]);
                }
            }
        }
    }
}

/// The moves of one colour have that colour, distinct anchors below cell `m`
/// per cell, and no duplicates.
proof fn lemma_colour_moves_shape(b: BoardView, c: Colour, m: int)
    requires
        0 <= m <= 100,
    ensures
        moves_of_colour(b, c, m).no_duplicates(),
        forall|i: int|
            0 <= i < moves_of_colour(b, c, m).len() ==> (#[trigger] moves_of_colour(b, c, m)[i]).colour == c
                && 0 <= cell_of(moves_of_colour(b, c, m)[i].anchor.x as int, moves_of_colour(b, c, m)[i].anchor.y as int) < m,
    decreases m,
{
    if m > 0 {
        let k = m - 1;
        lemma_colour_moves_shape(b, c, k);
        let n = placement_order(c).len() as int;
        lemma_cell_moves_shape(b, c, k, n);
        let a = moves_of_colour(b, c, k);
        let s = moves_in_cell(b, c, k, n);
        assert forall|i: int| 0 <= i < s.len() implies (#[trigger] s[i]).colour == c && cell_of(
            s[i].anchor.x as int,
            s[i].anchor.y as int,
        ) == k by {
            let j = choose|j: int| 0 <= j < n && #[trigger] s[i] == candidate(c, k, j);
        }
        assert forall|i: int, j: int| 0 <= i < a.len() && 0 <= j < s.len() implies a[i] != s[j] by {
            assert(s[j].colour == c);
        }
        lemma_concat_no_dup(a, s);
        let r = a + s;
        assert forall|i: int| 0 <= i < r.len() implies (#[trigger] r[i]).colour == c && 0 <= cell_of(
            r[i].anchor.x as int,
            r[i].anchor.y as int,
        ) < m by {
            if i >= a.len() {
                assert(r[i] == s[i - a.len()]);
            }
        }
    }
}

/// The moves of the first `n` colours have pool index below `n` and no duplicates.
proof fn lemma_upto_shape(b: BoardView, n: int)
    requires
        0 <= n <= 4,
    ensures
        moves_upto(b, n).no_duplicates(),
        forall|i: int|
            0 <= i < moves_upto(b, n).len() ==> (#[trigger] moves_upto(b, n)[i]).colour.is_piece()
                && moves_upto(b, n)[i].colour.index() < n,
    decreases n,
{
    if n > 0 {
        lemma_upto_shape(b, n - 1);
        let c = colour_of_index(n - 1);
        lemma_colour_moves_shape(b, c, 100);
        let a = moves_upto(b, n - 1);
        let s = moves_of_colour(b, c, 100);
        assert forall|i: int, j: int| 0 <= i < a.len() && 0 <= j < s.len() implies a[i] != s[j] by {
            assert(s[j].colour == c);
        }
        lemma_concat_no_dup(a, s);
        let r = a + s;
        assert forall|i: int| 0 <= i < r.len() implies (#[trigger] r[i]).colour.is_piece() && r[i].colour.index() < n by {
            if i >= a.len() {
                assert(r[i] == s[i - a.len()]);
            }
        }
    }
}

/// The legal moves are listed once each, all with a piece colour.
pub proof fn lemma_legal_moves_distinct(b: BoardView)
    ensures
        legal_moves(b).no_duplicates(),
        forall|i: int| 0 <= i < legal_moves(b).len() ==> (#[trigger] legal_moves(b)[i]).colour.is_piece(),
{
    lemma_upto_shape(b, 4);
}

/// The piece-ID table: the null tetromino, then every move legal on a blank board.
pub open spec fn table_contents() -> Seq<TetrominoView> {
    seq![null_view()] + legal_moves(blank_view())
}

/// The ID table lists each tetromino once.
pub proof fn lemma_table_distinct()
    ensures
        table_contents().no_duplicates(),
{
    let b = blank_view();
    lemma_legal_moves_distinct(b);
    let a = seq![null_view()];
    let s = legal_moves(b);
    assert forall|i: int, j: int| 0 <= i < a.len() && 0 <= j < s.len() implies a[i] != s[j] by {
        assert(s[j].colour.is_piece());
    }
    lemma_concat_no_dup(a, s);
}

/// Number of tetromino IDs, the null tetromino's included.
pub const TETROMINO_RANGE: usize = 1293;

/// `i` is the first position of `t` in `s`.
pub open spec fn first_index(s: Seq<TetrominoView>, t: TetrominoView, i: int) -> bool {
    0 <= i < s.len() && s[i] == t && forall|j: int| 0 <= j < i ==> s[j] != t
}

/// Looking an ID up and looking the tetromino's ID up are inverse: the ID of a
/// tetromino names it, and every ID is the ID of the tetromino it names.
pub proof fn lemma_id_bijection()
    ensures
        forall|t: TetrominoView, i: int| first_index(table_contents(), t, i) ==> table_contents()[i] == t,
        forall|i: int|
            0 <= i < table_contents().len() ==> first_index(table_contents(), #[trigger] table_contents()[i], i),
        forall|t: TetrominoView, i: int, j: int|
            first_index(table_contents(), t, i) && first_index(table_contents(), t, j) ==> i == j,
{
    lemma_table_distinct();
}

/// The bijection between tetrominoes and integer IDs: 0 is the null
/// tetromino, and the moves legal on a blank board follow in enumeration order.
pub struct MoveTable {
    moves: Vec<Tetromino>,
}

impl View for MoveTable {
    type V = Seq<TetrominoView>;

    closed spec fn view(&self) -> Seq<TetrominoView> {
        views(self.moves@)
    }
}

impl MoveTable {
    /// The number of IDs, the null tetromino's included.
    pub fn range(&self) -> (r: usize)
        ensures
            r == self@.len(),
    {
        self.moves.len()
    }

    /// Returns the ID of the tetromino, or `None` if it has none.
    pub fn id_of(&self, tetromino: &Tetromino) -> (r: Option<usize>)
        ensures
            match r {
                Some(i) => first_index(self@, tetromino@, i as int),
                None => !self@.contains(tetromino@),
            },
    {
        let mut i: usize = 0;
        while i < self.moves.len()
            invariant
                i <= self.moves@.len(),
                self@ == views(self.moves@),
                forall|j: int| 0 <= j < i ==> self@[j] != tetromino@,
            decreases self.moves@.len() - i,
        {
            if self.moves[i] == *tetromino {
                return Some(i);
            }
            i = i + 1;
        }
        proof {
            if self@.contains(tetromino@) {
                let j = choose|j: int| 0 <= j < self@.len() && self@[j] == tetromino@;
            }
        }
        None
    }

    /// Returns the tetromino with the ID, or `None` if the ID is out of range.
    pub fn tetromino(&self, id: usize) -> (r: Option<Tetromino>)
        ensures
            match r {
                Some(t) => id < self@.len() && t@ == self@[id as int],
                None => id >= self@.len(),
            },
    {
        if id < self.moves.len() {
            Some(self.moves[id].clone())
        } else {
            None
        }
    }
}

impl Tetromino {
    /// Builds the table of tetromino IDs.
    pub fn initialize() -> (r: MoveTable)
        ensures
            r@ == table_contents(),
    {
        let board = Board::blank();
        let moves = board.enumerate_moves();
        let mut table: Vec<Tetromino> = Vec::new();
        table.push(Tetromino::null());
        let mut i: usize = 0;
        while i < moves.len()
            invariant
                i <= moves@.len(),
                views(moves@) == legal_moves(blank_view()),
                views(table@) == seq![null_view()] + views(moves@).take(i as int),
            decreases moves@.len() - i,
        {
            let t = moves[i].clone();
            let ghost before = table@;
            table.push(t);
            i = i + 1;
            proof {
                assert(views(table@) =~= views(before).push(t@));
                assert(views(table@) =~= seq![null_view()] + views(moves@).take(i as int));
            }
        }
        assert(views(moves@).take(moves@.len() as int) =~= views(moves@));
        MoveTable { moves: table }
    }

    /// Gets the number of tetromino IDs, the null tetromino's included.
    pub fn range(table: &MoveTable) -> (r: usize)
        ensures
            r == table@.len(),
    {
        table.range()
    }
}

impl Board {
    /// The children of this position for a search tree, one per legal move
    /// in enumeration order: the move's ID in the table (0 when it has none),
    /// the proven outcome of the position after it for the side to move
    /// there, and that position.
    pub fn expansion(&self, table: &MoveTable) -> (r: (Vec<usize>, Vec<Option<crate::search::Outcome>>, Vec<Board>))
        requires
            self@.wf(),
        ensures
            r.0@.len() == legal_moves(self@).len(),
            r.1@.len() == legal_moves(self@).len(),
            r.2@.len() == legal_moves(self@).len(),
            forall|i: int|
                #![trigger r.2@[i]]
                0 <= i < legal_moves(self@).len() ==> {
                    &&& r.2@[i]@ == place_model(self@, legal_moves(self@)[i])
                    &&& r.2@[i]@.wf()
                    &&& r.1@[i] == finished_outcome_of(r.2@[i]@)
                    &&& (table@.contains(legal_moves(self@)[i]) ==> first_index(table@, legal_moves(self@)[i], r.0@[i] as int))
                    &&& (!table@.contains(legal_moves(self@)[i]) ==> r.0@[i] == 0)
                },
    {
        let moves = self.enumerate_moves();
        proof {
            lemma_moves_valid(self@, 4);
        }
        let mut actions: Vec<usize> = Vec::new();
        let mut outcomes: Vec<Option<crate::search::Outcome>> = Vec::new();
        let mut states: Vec<Board> = Vec::new();
        let ghost lm = legal_moves(self@);
        let mut i: usize = 0;
        while i < moves.len()
            invariant
                i <= moves@.len(),
                self@.wf(),
                views(moves@) == lm,
                lm == legal_moves(self@),
                all_valid(self@, lm),
                forall|k: int| 0 <= k < moves@.len() ==> (#[trigger] moves@[k])@.wf(),
                actions@.len() == i,
                outcomes@.len() == i,
                states@.len() == i,
                forall|k: int|
                    #![trigger states@[k]]
                    0 <= k < i ==> {
                        &&& states@[k]@ == place_model(self@, lm[k])
                        &&& states@[k]@.wf()
                        &&& outcomes@[k] == finished_outcome_of(states@[k]@)
                        &&& (table@.contains(lm[k]) ==> first_index(table@, lm[k], actions@[k] as int))
                        &&& (!table@.contains(lm[k]) ==> actions@[k] == 0)
                    },
            decreases moves@.len() - i,
        {
            let m = &moves[i];
            proof {
                assert(m@ == lm[i as int]);
                assert(validation(self@, lm[i as int]) is Ok);
            }
            let mut next = self.clone();
            let placed = next.place_tetromino(m);
            assert(placed is Ok);
            let outcome = next.finished_outcome();
            let id = match table.id_of(m) {
                Some(k) => k,
                None => 0,
            };
            actions.push(id);
            outcomes.push(outcome);
            states.push(next);
            i = i + 1;
        }
        (actions, outcomes, states)
    }
}

} // verus!
