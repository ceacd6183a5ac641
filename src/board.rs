use vstd::prelude::*;

use crate::colour::Colour;
use crate::error::LitsError;
use crate::player::Player;
use crate::point::{Point, cell_of, on_board};
use crate::tetromino::{Tetromino, TetrominoView, adjacent, lemma_shape, lemma_wf_points, offsets_in_box};
use crate::transform::{Transform, lemma_min_bounds, min_x, min_y, small};

verus! {

/// A set of piece colours, one flag per colour.
#[derive(Clone, Copy, Debug, PartialEq, Eq, Structural)]
pub struct ColourSet {
    pub l: bool,
    pub i: bool,
    pub t: bool,
    pub s: bool,
}

impl ColourSet {
    /// The flag of a piece colour.
    pub open spec fn has(self, c: Colour) -> bool {
        match c {
            Colour::L => self.l,
            Colour::I => self.i,
            Colour::T => self.t,
            Colour::S => self.s,
            Colour::Empty => false,
        }
    }

    /// No colour is in the set.
    pub open spec fn spec_is_empty(self) -> bool {
        !self.l && !self.i && !self.t && !self.s
    }

    /// Whether the colour is in the set.
    pub fn contains(&self, c: &Colour) -> (r: bool)
        ensures
            r == self.has(*c),
    {
        match c {
            Colour::L => self.l,
            Colour::I => self.i,
            Colour::T => self.t,
            Colour::S => self.s,
            Colour::Empty => false,
        }
    }

    /// Whether no colour is in the set.
    pub fn is_empty(&self) -> (r: bool)
        ensures
            r == self.spec_is_empty(),
    {
        !self.l && !self.i && !self.t && !self.s
    }
}

/// The colour of the tile at `(x, y)`; `Empty` off the board.
pub open spec fn tile(pieces: Seq<Colour>, x: int, y: int) -> Colour {
    if on_board(x, y) {
        pieces[cell_of(x, y)]
    } else {
        Colour::Empty
    }
}

/// Some orthogonal neighbour of `(x, y)` is covered.
pub open spec fn touches(pieces: Seq<Colour>, x: int, y: int) -> bool {
    tile(pieces, x - 1, y) != Colour::Empty || tile(pieces, x + 1, y) != Colour::Empty
        || tile(pieces, x, y - 1) != Colour::Empty || tile(pieces, x, y + 1) != Colour::Empty
}

/// Some orthogonal neighbour of `(x, y)` is covered by colour `c`.
pub open spec fn next_to(pieces: Seq<Colour>, x: int, y: int, c: Colour) -> bool {
    tile(pieces, x - 1, y) == c || tile(pieces, x + 1, y) == c || tile(pieces, x, y - 1) == c
        || tile(pieces, x, y + 1) == c
}

/// No tile is covered.
pub open spec fn is_blank(pieces: Seq<Colour>) -> bool {
    forall|k: int| 0 <= k < pieces.len() ==> pieces[k] == Colour::Empty
}

/// On a board with pieces: `(x, y)` is uncovered, touches a piece, and no
/// neighbour has colour `c`.
pub open spec fn local_has(pieces: Seq<Colour>, x: int, y: int, c: Colour) -> bool {
    tile(pieces, x, y) == Colour::Empty && touches(pieces, x, y) && !next_to(pieces, x, y, c)
}

/// The colours that may attach at `(x, y)` by the local rule.
pub open spec fn local_set(pieces: Seq<Colour>, x: int, y: int) -> ColourSet {
    ColourSet {
        l: local_has(pieces, x, y, Colour::L),
        i: local_has(pieces, x, y, Colour::I),
        t: local_has(pieces, x, y, Colour::T),
        s: local_has(pieces, x, y, Colour::S),
    }
}

/// Every colour.
pub open spec fn full_set() -> ColourSet {
    ColourSet { l: true, i: true, t: true, s: true }
}

/// The colours that may attach at `(x, y)`: all of them everywhere on a blank
/// board, else the local rule.
pub open spec fn attach_set(pieces: Seq<Colour>, x: int, y: int) -> ColourSet {
    if is_blank(pieces) {
        full_set()
    } else {
        local_set(pieces, x, y)
    }
}

/// The attach index computed from scratch, one colour set per cell.
pub open spec fn scratch_attach(pieces: Seq<Colour>) -> Seq<ColourSet> {
    Seq::new(100, |k: int| attach_set(pieces, k / 10, k % 10))
}

/// For a piece colour, some on-board neighbour has it exactly when `next_to` holds.
pub proof fn lemma_neighbours_on_board_next_to(pieces: Seq<Colour>, p: Point, c: Colour)
    requires
        pieces.len() == 100,
        p.steppable(),
    ensures
        c.is_piece() ==> ((exists|k: int|
            0 <= k < p.spec_neighbours_on_board().len() && pieces[(#[trigger] p.spec_neighbours_on_board()[k]).cell()] == c)
            == next_to(pieces, p.x as int, p.y as int, c)),
{
    let ns = p.spec_neighbours_on_board();
    let n = p.spec_neighbours();
    if c.is_piece() {
        if next_to(pieces, p.x as int, p.y as int, c) {
            let j: int = if tile(pieces, p.x - 1, p.y as int) == c { 0 } else if tile(pieces, p.x + 1, p.y as int) == c { 1 } else if tile(pieces, p.x as int, p.y - 1) == c { 2 } else { 3 };
            assert(n[j].on());
            assert(ns.contains(n[j])) by {
                let a = if n[0].on() { seq![n[0]] } else { Seq::<Point>::empty() };
                let b = if n[1].on() { seq![n[1]] } else { Seq::<Point>::empty() };
                let d = if n[2].on() { seq![n[2]] } else { Seq::<Point>::empty() };
                let e = if n[3].on() { seq![n[3]] } else { Seq::<Point>::empty() };
                assert(ns == a + b + d + e);
                if j == 0 { assert(ns[0] == n[0]); }
                else if j == 1 { assert(ns[a.len() as int] == n[1]); }
                else if j == 2 { assert(ns[(a.len() + b.len()) as int] == n[2]); }
                else { assert(ns[(a.len() + b.len() + d.len()) as int] == n[3]); }
            }
            let k = choose|k: int| 0 <= k < ns.len() && ns[k] == n[j];
            assert(pieces[ns[k].cell()] == c);
        }
        if exists|k: int| 0 <= k < ns.len() && pieces[(#[trigger] ns[k]).cell()] == c {
            let k = choose|k: int| 0 <= k < ns.len() && pieces[(#[trigger] ns[k]).cell()] == c;
            let q = ns[k];
            assert(q.on());
            assert(q == n[0] || q == n[1] || q == n[2] || q == n[3]) by {
                let a = if n[0].on() { seq![n[0]] } else { Seq::<Point>::empty() };
                let b = if n[1].on() { seq![n[1]] } else { Seq::<Point>::empty() };
                let d = if n[2].on() { seq![n[2]] } else { Seq::<Point>::empty() };
                let e = if n[3].on() { seq![n[3]] } else { Seq::<Point>::empty() };
                assert(ns == a + b + d + e);
                if k < a.len() { assert(ns[k] == a[k]); }
                else if k < a.len() + b.len() { assert(ns[k] == b[k - a.len()]); }
                else if k < a.len() + b.len() + d.len() { assert(ns[k] == d[k - a.len() - b.len()]); }
                else { assert(ns[k] == e[k - a.len() - b.len() - d.len()]); }
            }
        }
    }
}

/// Cell numbering is a bijection between board coordinates and 0..100.
pub proof fn lemma_cell(x: int, y: int)
    requires
        on_board(x, y),
    ensures
        0 <= cell_of(x, y) < 100,
        cell_of(x, y) / 10 == x,
        cell_of(x, y) % 10 == y,
{
}

/// Every cell number is the cell of its row and column.
pub proof fn lemma_cell_split(k: int)
    requires
        0 <= k < 100,
    ensures
        on_board(k / 10, k % 10),
        cell_of(k / 10, k % 10) == k,
{
}

/// Tile `k` is one of the tetromino's cells.
pub open spec fn covers(t: TetrominoView, k: int) -> bool {
    exists|i: int| 0 <= i < t.real_points().len() && (#[trigger] t.real_points()[i]).cell() == k
}

/// The tiles with the tetromino's cells set to colour `c`.
pub open spec fn paint(pieces: Seq<Colour>, t: TetrominoView, c: Colour) -> Seq<Colour> {
    Seq::new(pieces.len(), |k: int| if covers(t, k) { c } else { pieces[k] })
}

/// The tiles with the cells of the first `n` points set to colour `c`.
pub open spec fn paint_prefix(pieces: Seq<Colour>, pts: Seq<Point>, n: int, c: Colour) -> Seq<Colour> {
    Seq::new(
        pieces.len(),
        |k: int| if exists|j: int| 0 <= j < n && (#[trigger] pts[j]).cell() == k { c } else { pieces[k] },
    )
}

/// `(x, y)` is covered once the points are added.
pub open spec fn covered_after(pieces: Seq<Colour>, pts: Seq<Point>, x: int, y: int) -> bool {
    tile(pieces, x, y) != Colour::Empty || pts.contains(Point { x: x as i32, y: y as i32 })
}

/// The 2x2 block with corner `(ox + i, oy + j)` is fully covered once the points are added.
pub open spec fn window_block(pieces: Seq<Colour>, pts: Seq<Point>, ox: int, oy: int, i: int, j: int) -> bool {
    let x = ox + i;
    let y = oy + j;
    &&& covered_after(pieces, pts, x, y)
    &&& covered_after(pieces, pts, x + 1, y)
    &&& covered_after(pieces, pts, x, y + 1)
    &&& covered_after(pieces, pts, x + 1, y + 1)
}

/// Some 2x2 block with its corner in the 5x5 square at `(ox, oy)` is fully
/// covered once the points are added: the 6x6 window at `(ox, oy)` holds an O.
pub open spec fn forms_o_in_window(pieces: Seq<Colour>, pts: Seq<Point>, ox: int, oy: int) -> bool {
    exists|i: int, j: int| 0 <= i < 5 && 0 <= j < 5 && #[trigger] window_block(pieces, pts, ox, oy, i, j)
}

/// The outcome of checking a well-formed tetromino against a board, the first
/// failing rule in order: a copy is left, on the board, no overlap, some tile
/// on an attach point, no same-colour neighbour, no 2x2 block.
pub open spec fn validation(b: BoardView, t: TetrominoView) -> Result<(), LitsError> {
    let c = t.colour;
    let pts = t.real_points();
    if b.remaining[c.index()] == 0 {
        Err(LitsError::NoSuchPiece)
    } else if exists|i: int| 0 <= i < pts.len() && !(#[trigger] pts[i]).on() {
        Err(LitsError::OutOfBounds)
    } else if exists|i: int| 0 <= i < pts.len() && b.pieces[(#[trigger] pts[i]).cell()] != Colour::Empty {
        Err(LitsError::Overlap)
    } else if forall|i: int| 0 <= i < pts.len() ==> b.attach[(#[trigger] pts[i]).cell()].spec_is_empty() {
        Err(LitsError::NoAttach)
    } else if exists|i: int| 0 <= i < pts.len() && next_to(b.pieces, (#[trigger] pts[i]).x as int, pts[i].y as int, c) {
        Err(LitsError::SameColourAdjacent)
    } else if forms_o_in_window(b.pieces, pts, t.anchor.x - 1, t.anchor.y - 1) {
        Err(LitsError::FormsO)
    } else {
        Ok(())
    }
}

/// The board after playing a tetromino that passed validation.
pub open spec fn place_model(b: BoardView, t: TetrominoView) -> BoardView {
    let pieces = paint(b.pieces, t, t.colour);
    BoardView {
        score: b.score,
        pieces,
        remaining: b.remaining.update(t.colour.index(), (b.remaining[t.colour.index()] - 1) as usize),
        attach: scratch_attach(pieces),
        to_move: b.to_move.opponent(),
    }
}

/// The tetromino stands on the board: every cell on the board with its colour.
pub open spec fn stands_on(b: BoardView, t: TetrominoView) -> bool {
    forall|i: int|
        0 <= i < t.real_points().len() ==> (#[trigger] t.real_points()[i]).on() && b.pieces[t.real_points()[i].cell()]
            == t.colour
}

/// The outcome of checking that a tetromino can be taken back.
pub open spec fn undo_check(b: BoardView, t: TetrominoView) -> Result<(), LitsError> {
    if b.remaining[t.colour.index()] >= 5 {
        Err(LitsError::NoRemainingUndo)
    } else if !stands_on(b, t) {
        Err(LitsError::PieceNotOnBoard)
    } else {
        Ok(())
    }
}

/// The board after taking back a tetromino that passed `undo_check`.
pub open spec fn undo_model(b: BoardView, t: TetrominoView) -> BoardView {
    let pieces = paint(b.pieces, t, Colour::Empty);
    BoardView {
        score: b.score,
        pieces,
        remaining: b.remaining.update(t.colour.index(), (b.remaining[t.colour.index()] + 1) as usize),
        attach: scratch_attach(pieces),
        to_move: b.to_move.opponent(),
    }
}

/// `(x, y)` lies in the 6x6 window with corner `(ox, oy)`.
pub open spec fn in_window(ox: int, oy: int, x: int, y: int) -> bool {
    ox <= x < ox + 6 && oy <= y < oy + 6
}

/// Attach sets depend only on a cell and its neighbours: when two boards with
/// pieces differ only inside the 4x4 square at `(ox + 1, oy + 1)`, their attach
/// sets agree outside the 6x6 window at `(ox, oy)`.
pub proof fn lemma_attach_locality(old_tiles: Seq<Colour>, new_tiles: Seq<Colour>, ox: int, oy: int)
    requires
        old_tiles.len() == 100,
        new_tiles.len() == 100,
        !is_blank(old_tiles),
        !is_blank(new_tiles),
        forall|x: int, y: int|
            on_board(x, y) && old_tiles[cell_of(x, y)] != new_tiles[cell_of(x, y)] ==> ox + 1 <= x <= ox + 4 && oy
                + 1 <= y <= oy + 4,
    ensures
        forall|x: int, y: int|
            on_board(x, y) && !in_window(ox, oy, x, y) ==> #[trigger] attach_set(old_tiles, x, y) == attach_set(new_tiles, x, y),
{
    assert forall|x: int, y: int| on_board(x, y) && !in_window(ox, oy, x, y) implies #[trigger] attach_set(old_tiles, x, y)
        == attach_set(new_tiles, x, y) by {
        assert(tile(old_tiles, x, y) == tile(new_tiles, x, y));
        assert(tile(old_tiles, x - 1, y) == tile(new_tiles, x - 1, y));
        assert(tile(old_tiles, x + 1, y) == tile(new_tiles, x + 1, y));
        assert(tile(old_tiles, x, y - 1) == tile(new_tiles, x, y - 1));
        assert(tile(old_tiles, x, y + 1) == tile(new_tiles, x, y + 1));
    }
}

/// The cells of a well-formed tetromino lie in the 4x4 square at its anchor.
pub proof fn lemma_covers_box(t: TetrominoView, k: int)
    requires
        t.wf(),
        covers(t, k),
        forall|i: int| 0 <= i < t.real_points().len() ==> (#[trigger] t.real_points()[i]).on(),
    ensures
        exists|x: int, y: int|
            on_board(x, y) && cell_of(x, y) == k && t.anchor.x <= x <= t.anchor.x + 3 && t.anchor.y <= y
                <= t.anchor.y + 3,
{
    lemma_wf_points(t);
    let i = choose|i: int| 0 <= i < t.real_points().len() && (#[trigger] t.real_points()[i]).cell() == k;
    let p = t.real_points()[i];
    assert(on_board(p.x as int, p.y as int) && cell_of(p.x as int, p.y as int) == k);
}

/// The smallest coordinates of a well-formed tetromino's cells are its anchor.
pub proof fn lemma_real_min(t: TetrominoView)
    requires
        t.wf(),
    ensures
        min_x(t.real_points()) == t.anchor.x,
        min_y(t.real_points()) == t.anchor.y,
{
    lemma_wf_points(t);
    lemma_shape(t.colour, t.transform);
    let rp = t.real_points();
    lemma_min_bounds(rp);
    let i = choose|i: int| 0 <= i < 4 && (#[trigger] t.points[i]).x == 0;
    let j = choose|i: int| 0 <= i < 4 && (#[trigger] t.points[i]).y == 0;
    assert(rp[i].x == t.anchor.x);
    assert(rp[j].y == t.anchor.y);
    let kx = choose|k: int| 0 <= k < rp.len() && min_x(rp) == (#[trigger] rp[k]).x;
    let ky = choose|k: int| 0 <= k < rp.len() && min_y(rp) == (#[trigger] rp[k]).y;
    assert(rp[kx].x >= t.anchor.x);
    assert(rp[ky].y >= t.anchor.y);
}

/// Painting a tetromino's cells with `c` and then with `Empty` gives back tiles
/// on which those cells were uncovered; the converse order gives back tiles on
/// which they had colour `c`.
pub proof fn lemma_paint_back(p: Seq<Colour>, t: TetrominoView, c: Colour, d: Colour)
    requires
        forall|i: int| 0 <= i < t.real_points().len() ==> p[(#[trigger] t.real_points()[i]).cell()] == d,
    ensures
        paint(paint(p, t, c), t, d) == p,
{
    let q = paint(paint(p, t, c), t, d);
    assert forall|k: int| 0 <= k < p.len() implies q[k] == p[k] by {
        if covers(t, k) {
            let i = choose|i: int| 0 <= i < t.real_points().len() && (#[trigger] t.real_points()[i]).cell() == k;
            assert(p[t.real_points()[i].cell()] == d);
        }
    }
    assert(q =~= p);
}

/// After painting, each cell of the tetromino has the paint colour.
pub proof fn lemma_paint_cells(p: Seq<Colour>, t: TetrominoView, c: Colour)
    requires
        forall|i: int| 0 <= i < t.real_points().len() ==> (#[trigger] t.real_points()[i]).on(),
        p.len() == 100,
    ensures
        forall|i: int| 0 <= i < t.real_points().len() ==> paint(p, t, c)[(#[trigger] t.real_points()[i]).cell()] == c,
{
    assert forall|i: int| 0 <= i < t.real_points().len() implies paint(p, t, c)[(#[trigger] t.real_points()[i]).cell()]
        == c by {
        assert(covers(t, t.real_points()[i].cell()));
    }
}

/// Refreshing the window around a tetromino turns the attach index of the
/// tiles before into the one of the tiles after, when neither is blank and
/// they differ only on the tetromino's cells.
proof fn lemma_refresh_gives_scratch(
    p_old: Seq<Colour>,
    p_new: Seq<Colour>,
    att_old: Seq<ColourSet>,
    att_new: Seq<ColourSet>,
    t: TetrominoView,
)
    requires
        p_old.len() == 100,
        p_new.len() == 100,
        t.wf(),
        forall|i: int| 0 <= i < t.real_points().len() ==> (#[trigger] t.real_points()[i]).on(),
        !is_blank(p_old),
        !is_blank(p_new),
        forall|k: int| 0 <= k < 100 && !covers(t, k) ==> p_old[k] == p_new[k],
        att_old == scratch_attach(p_old),
        att_new.len() == 100,
        forall|a: int, b: int|
            on_board(a, b) ==> #[trigger] att_new[cell_of(a, b)] == if in_window(t.anchor.x - 1, t.anchor.y - 1, a, b) {
                local_set(p_new, a, b)
            } else {
                att_old[cell_of(a, b)]
            },
    ensures
        att_new == scratch_attach(p_new),
{
    let ox = t.anchor.x - 1;
    let oy = t.anchor.y - 1;
    assert forall|x: int, y: int|
        on_board(x, y) && p_old[cell_of(x, y)] != p_new[cell_of(x, y)] implies ox + 1 <= x <= ox + 4 && oy + 1 <= y
        <= oy + 4 by {
        lemma_cell(x, y);
        lemma_covers_box(t, cell_of(x, y));
    }
    lemma_attach_locality(p_old, p_new, ox, oy);
    assert forall|k: int| 0 <= k < 100 implies att_new[k] == scratch_attach(p_new)[k] by {
        lemma_cell_split(k);
        let a = k / 10;
        let b = k % 10;
        assert(att_new[cell_of(a, b)] == att_new[k]);
        if !in_window(ox, oy, a, b) {
            assert(attach_set(p_old, a, b) == attach_set(p_new, a, b));
        }
    }
    assert(att_new =~= scratch_attach(p_new));
}

/// The 2x2 block with corner `(x, y)` is fully covered.
pub open spec fn block_full(pieces: Seq<Colour>, x: int, y: int) -> bool {
    tile(pieces, x, y) != Colour::Empty && tile(pieces, x + 1, y) != Colour::Empty && tile(pieces, x, y + 1)
        != Colour::Empty && tile(pieces, x + 1, y + 1) != Colour::Empty
}

/// No 2x2 block of tiles is fully covered.
pub open spec fn no_o(pieces: Seq<Colour>) -> bool {
    forall|x: int, y: int| 0 <= x < 9 && 0 <= y < 9 ==> !#[trigger] block_full(pieces, x, y)
}

/// On the board, a tile is covered after painting a legal tetromino exactly
/// when it was covered before or is one of the tetromino's cells.
proof fn lemma_paint_tile(b: BoardView, t: TetrominoView, x: int, y: int)
    requires
        b.pieces.len() == 100,
        t.wf(),
        forall|i: int| 0 <= i < t.real_points().len() ==> (#[trigger] t.real_points()[i]).on(),
        on_board(x, y),
    ensures
        (tile(paint(b.pieces, t, t.colour), x, y) != Colour::Empty) == covered_after(b.pieces, t.real_points(), x, y),
{
    lemma_wf_points(t);
    let rp = t.real_points();
    let q = Point { x: x as i32, y: y as i32 };
    lemma_cell(x, y);
    if covers(t, cell_of(x, y)) {
        let i = choose|i: int| 0 <= i < rp.len() && (#[trigger] rp[i]).cell() == cell_of(x, y);
        lemma_cell(rp[i].x as int, rp[i].y as int);
        assert(rp[i] == q);
        assert(rp.contains(q));
    }
    if rp.contains(q) {
        let i = choose|i: int| 0 <= i < rp.len() && rp[i] == q;
        assert(rp[i].cell() == cell_of(x, y));
        assert(covers(t, cell_of(x, y)));
    }
}

/// A legal tetromino is on the board and forms no block in its window.
proof fn lemma_valid_facts(b: BoardView, t: TetrominoView)
    requires
        b.wf(),
        t.wf(),
        validation(b, t) is Ok,
    ensures
        forall|i: int| 0 <= i < t.real_points().len() ==> (#[trigger] t.real_points()[i]).on(),
        !forms_o_in_window(b.pieces, t.real_points(), t.anchor.x - 1, t.anchor.y - 1),
{
    let rp = t.real_points();
    assert forall|i: int| 0 <= i < rp.len() implies (#[trigger] rp[i]).on() by {
        if !rp[i].on() {
            assert(validation(b, t) == Err::<(), LitsError>(LitsError::OutOfBounds));
        }
    }
}

/// A block that is fully covered after playing a legal tetromino was fully
/// covered before.
proof fn lemma_block_after_place(b: BoardView, t: TetrominoView, x: int, y: int)
    requires
        b.pieces.len() == 100,
        t.wf(),
        forall|i: int| 0 <= i < t.real_points().len() ==> (#[trigger] t.real_points()[i]).on(),
        !forms_o_in_window(b.pieces, t.real_points(), t.anchor.x - 1, t.anchor.y - 1),
        0 <= x < 9,
        0 <= y < 9,
        covered_after(b.pieces, t.real_points(), x, y),
        covered_after(b.pieces, t.real_points(), x + 1, y),
        covered_after(b.pieces, t.real_points(), x, y + 1),
        covered_after(b.pieces, t.real_points(), x + 1, y + 1),
    ensures
        tile(b.pieces, x, y) != Colour::Empty,
        tile(b.pieces, x + 1, y) != Colour::Empty,
        tile(b.pieces, x, y + 1) != Colour::Empty,
        tile(b.pieces, x + 1, y + 1) != Colour::Empty,
{
    lemma_wf_points(t);
    let rp = t.real_points();
    let ox = t.anchor.x - 1;
    let oy = t.anchor.y - 1;
    let c0 = Point { x: x as i32, y: y as i32 };
    let c1 = Point { x: (x + 1) as i32, y: y as i32 };
    let c2 = Point { x: x as i32, y: (y + 1) as i32 };
    let c3 = Point { x: (x + 1) as i32, y: (y + 1) as i32 };
    if rp.contains(c0) || rp.contains(c1) || rp.contains(c2) || rp.contains(c3) {
        let q = if rp.contains(c0) { c0 } else if rp.contains(c1) { c1 } else if rp.contains(c2) { c2 } else { c3 };
        let i = choose|i: int| 0 <= i < rp.len() && rp[i] == q;
        assert(0 <= t.points[i].x <= 3 && 0 <= t.points[i].y <= 3);
        assert(window_block(b.pieces, rp, ox, oy, x - ox, y - oy));
        assert(false);
    }
}

/// The block at `(x, y)` is not fully covered after playing a legal tetromino
/// when it was not before.
proof fn lemma_no_block_after_place(b: BoardView, t: TetrominoView, x: int, y: int)
    requires
        b.pieces.len() == 100,
        t.wf(),
        !block_full(b.pieces, x, y),
        forall|i: int| 0 <= i < t.real_points().len() ==> (#[trigger] t.real_points()[i]).on(),
        !forms_o_in_window(b.pieces, t.real_points(), t.anchor.x - 1, t.anchor.y - 1),
        0 <= x < 9,
        0 <= y < 9,
    ensures
        !block_full(paint(b.pieces, t, t.colour), x, y),
{
    lemma_paint_tile(b, t, x, y);
    lemma_paint_tile(b, t, x + 1, y);
    lemma_paint_tile(b, t, x, y + 1);
    lemma_paint_tile(b, t, x + 1, y + 1);
    if block_full(paint(b.pieces, t, t.colour), x, y) {
        lemma_block_after_place(b, t, x, y);
    }
}

/// Playing a legal tetromino on a board without a fully covered 2x2 block
/// leaves a board without one: any new block holds a tile of the tetromino
/// and so lies in the window that validation inspects.
pub proof fn lemma_place_keeps_no_o(b: BoardView, t: TetrominoView)
    requires
        b.wf(),
        t.wf(),
        no_o(b.pieces),
        validation(b, t) is Ok,
    ensures
        no_o(place_model(b, t).pieces),
{
    lemma_valid_facts(b, t);
    let np = paint(b.pieces, t, t.colour);
    assert forall|x: int, y: int| 0 <= x < 9 && 0 <= y < 9 implies !#[trigger] block_full(np, x, y) by {
        assert(!block_full(b.pieces, x, y));
        lemma_no_block_after_place(b, t, x, y);
    }
    assert(place_model(b, t).pieces == np);
}

/// After a legal tetromino is played, a tile of its colour next to one of its
/// cells is one of its own cells: pieces of one colour never touch.
pub proof fn lemma_place_isolates_colour(b: BoardView, t: TetrominoView, i: int, q: Point)
    requires
        b.wf(),
        t.wf(),
        validation(b, t) is Ok,
        0 <= i < t.real_points().len(),
        q.on(),
        adjacent(q, t.real_points()[i]),
        tile(place_model(b, t).pieces, q.x as int, q.y as int) == t.colour,
    ensures
        t.real_points().contains(q),
{
    lemma_valid_facts(b, t);
    lemma_paint_tile(b, t, q.x as int, q.y as int);
    let rp = t.real_points();
    if !rp.contains(q) {
        lemma_cell(q.x as int, q.y as int);
        assert(!covers(t, q.cell())) by {
            if covers(t, q.cell()) {
                let k = choose|k: int| 0 <= k < rp.len() && (#[trigger] rp[k]).cell() == q.cell();
                lemma_cell(rp[k].x as int, rp[k].y as int);
                assert(rp[k] == q);
            }
        }
        assert(tile(b.pieces, q.x as int, q.y as int) == t.colour);
        assert(next_to(b.pieces, rp[i].x as int, rp[i].y as int, t.colour));
        assert(validation(b, t) is Err);
    }
}

/// Taking a tetromino back never completes a 2x2 block.
pub proof fn lemma_undo_keeps_no_o(b: BoardView, t: TetrominoView)
    requires
        b.wf(),
        t.wf(),
        no_o(b.pieces),
    ensures
        no_o(undo_model(b, t).pieces),
{
    let np = paint(b.pieces, t, Colour::Empty);
    assert forall|x: int, y: int| 0 <= x < 9 && 0 <= y < 9 implies !#[trigger] block_full(np, x, y) by {
        assert(!block_full(b.pieces, x, y));
    }
    assert(undo_model(b, t).pieces == np);
}

/// Placing a tetromino that passed validation keeps the board invariants.
pub proof fn lemma_place_wf(b: BoardView, t: TetrominoView)
    requires
        b.wf(),
        t.wf(),
        validation(b, t) is Ok,
    ensures
        place_model(b, t).wf(),
{
    let n = place_model(b, t);
    assert(n.pieces.len() == 100);
    assert forall|i: int| 0 <= i < 4 implies n.remaining[i] <= 5 by {}
}

/// Taking back a tetromino that passed `undo_check` keeps the board invariants.
pub proof fn lemma_undo_wf(b: BoardView, t: TetrominoView)
    requires
        b.wf(),
        t.wf(),
        undo_check(b, t) is Ok,
    ensures
        undo_model(b, t).wf(),
{
    let n = undo_model(b, t);
    assert(n.pieces.len() == 100);
    assert forall|i: int| 0 <= i < 4 implies n.remaining[i] <= 5 by {}
}

/// Playing a legal tetromino and then taking it back restores the board
/// exactly: the take-back is accepted and yields the board before the move.
pub proof fn lemma_place_then_undo(b: BoardView, t: TetrominoView)
    requires
        b.wf(),
        t.wf(),
        validation(b, t) is Ok,
    ensures
        undo_check(place_model(b, t), t) is Ok,
        undo_model(place_model(b, t), t) == b,
{
    lemma_wf_points(t);
    let n = place_model(b, t);
    lemma_paint_cells(b.pieces, t, t.colour);
    assert(stands_on(n, t));
    assert(n.remaining[t.colour.index()] < 5);
    let pts = t.real_points();
    assert forall|i: int| 0 <= i < pts.len() implies b.pieces[(#[trigger] pts[i]).cell()] == Colour::Empty by {
        if b.pieces[pts[i].cell()] != Colour::Empty {
            assert(validation(b, t) == Err::<(), LitsError>(LitsError::Overlap));
        }
    }
    lemma_paint_back(b.pieces, t, t.colour, Colour::Empty);
    let u = undo_model(n, t);
    assert(u.remaining =~= b.remaining);
    assert(u.pieces == b.pieces);
    assert(u.to_move == b.to_move);
}

/// The side to move is the same after playing a legal tetromino and taking it back.
pub proof fn lemma_place_then_undo_to_move(b: BoardView, t: TetrominoView)
    requires
        b.wf(),
        t.wf(),
        validation(b, t) is Ok,
    ensures
        undo_model(place_model(b, t), t).to_move == b.to_move,
{
    lemma_place_then_undo(b, t);
}

/// One step of play: `(true, t)` plays `t` if it is legal, `(false, t)` takes
/// `t` back if it stands on the board; a refused step leaves the board as it is.
pub open spec fn step(b: BoardView, op: (bool, TetrominoView)) -> BoardView {
    if op.0 {
        if validation(b, op.1) is Ok { place_model(b, op.1) } else { b }
    } else {
        if undo_check(b, op.1) is Ok { undo_model(b, op.1) } else { b }
    }
}

/// The board after a sequence of steps.
pub open spec fn replay(b: BoardView, ops: Seq<(bool, TetrominoView)>) -> BoardView
    decreases ops.len(),
{
    if ops.len() == 0 {
        b
    } else {
        step(replay(b, ops.drop_last()), ops.last())
    }
}

/// On every board reached by plays and take-backs from a well-formed board,
/// the attach index equals the one computed from scratch.
pub proof fn lemma_reachable_attach_is_scratch(b: BoardView, ops: Seq<(bool, TetrominoView)>)
    requires
        b.wf(),
        forall|i: int| 0 <= i < ops.len() ==> (#[trigger] ops[i]).1.wf(),
    ensures
        replay(b, ops).wf(),
        replay(b, ops).attach == scratch_attach(replay(b, ops).pieces),
    decreases ops.len(),
{
    if ops.len() > 0 {
        let prefix = ops.drop_last();
        assert forall|i: int| 0 <= i < prefix.len() implies (#[trigger] prefix[i]).1.wf() by {
            assert(prefix[i] == ops[i]);
        }
        lemma_reachable_attach_is_scratch(b, prefix);
        let m = replay(b, prefix);
        let op = ops.last();
        assert(op.1.wf());
        if op.0 {
            if validation(m, op.1) is Ok {
                lemma_place_wf(m, op.1);
            }
        } else {
            if undo_check(m, op.1) is Ok {
                lemma_undo_wf(m, op.1);
            }
        }
    }
}

/// The blank board: no scoring tiles, no pieces, five copies of each colour,
/// every cell an attach point for every colour, X to move.
pub open spec fn blank_view() -> BoardView {
    let pieces = Seq::new(100, |k: int| Colour::Empty);
    BoardView {
        score: Seq::new(100, |k: int| Player::Neither),
        pieces,
        remaining: seq![5usize, 5, 5, 5],
        attach: scratch_attach(pieces),
        to_move: Player::X,
    }
}

/// Rows of ten flattened into cells `10 * x + y`.
pub open spec fn flatten<T>(rows: Seq<Vec<T>>) -> Seq<T> {
    Seq::new(100, |k: int| rows[k / 10]@[k % 10])
}

/// Sum of the owners' values over the uncovered tiles among cells below `n`.
pub open spec fn score_upto(score: Seq<Player>, pieces: Seq<Colour>, n: int) -> int
    decreases n,
{
    if n <= 0 {
        0
    } else {
        score_upto(score, pieces, n - 1) + if pieces[n - 1] == Colour::Empty {
            score[n - 1].spec_value()
        } else {
            0
        }
    }
}

/// The score in X's frame: the owners' values summed over uncovered tiles.
pub open spec fn score_of(b: BoardView) -> int {
    score_upto(b.score, b.pieces, 100)
}

proof fn lemma_score_bounds(score: Seq<Player>, pieces: Seq<Colour>, n: int)
    requires
        0 <= n,
    ensures
        -n <= score_upto(score, pieces, n) <= n,
    decreases n,
{
    if n > 0 {
        lemma_score_bounds(score, pieces, n - 1);
    }
}

/// The state of a board.
pub struct BoardView {
    /// Owner of each scoring tile, by cell.
    pub score: Seq<Player>,
    /// Colour covering each tile, by cell.
    pub pieces: Seq<Colour>,
    /// Copies left of L, I, T, S.
    pub remaining: Seq<usize>,
    /// Colours that may attach at each cell; empty where it is no attach point.
    pub attach: Seq<ColourSet>,
    /// The side to move.
    pub to_move: Player,
}

impl BoardView {
    /// The board invariants: sizes, pool bounds, a side to move, and an attach
    /// index equal to the one computed from scratch.
    pub open spec fn wf(self) -> bool {
        &&& self.score.len() == 100
        &&& self.pieces.len() == 100
        &&& self.remaining.len() == 4
        &&& forall|i: int| 0 <= i < 4 ==> self.remaining[i] <= 5
        &&& self.to_move.is_side()
        &&& self.attach == scratch_attach(self.pieces)
    }

    /// The number of copies left in the pool, all colours together.
    pub open spec fn pool_size(self) -> int {
        self.remaining[0] + self.remaining[1] + self.remaining[2] + self.remaining[3]
    }
}

/// A game board of The Battle of LITS: a 10x10 grid of tiles, each with an
/// owner for scoring and a covering colour, plus the piece pool, the attach
/// index and the side to move. Cells are numbered `10 * x + y`.
#[derive(Debug)]
pub struct Board {
    score_tiles: Vec<Player>,
    piece_tiles: Vec<Colour>,
    pieces_remaining: Vec<usize>,
    attach_points: Vec<ColourSet>,
    to_move: Player,
}

impl View for Board {
    type V = BoardView;

    closed spec fn view(&self) -> BoardView {
        BoardView {
            score: self.score_tiles@,
            pieces: self.piece_tiles@,
            remaining: self.pieces_remaining@,
            attach: self.attach_points@,
            to_move: self.to_move,
        }
    }
}

impl Clone for Board {
    fn clone(&self) -> (r: Board)
        ensures
            r@ == self@,
    {
        let r = Board {
            score_tiles: self.score_tiles.clone(),
            piece_tiles: self.piece_tiles.clone(),
            pieces_remaining: self.pieces_remaining.clone(),
            attach_points: self.attach_points.clone(),
            to_move: self.to_move,
        };
        assert(r.score_tiles@ =~= self.score_tiles@);
        assert(r.piece_tiles@ =~= self.piece_tiles@);
        assert(r.pieces_remaining@ =~= self.pieces_remaining@);
        assert(r.attach_points@ =~= self.attach_points@);
        r
    }
}

impl Board {
    /// Returns a blank board: no scoring tiles, no pieces, five copies of each
    /// colour, every cell an attach point for every colour, X to move.
    pub fn blank() -> (r: Board)
        ensures
            r@.wf(),
            r@ == blank_view(),
    {
        let mut score_tiles: Vec<Player> = Vec::new();
        let mut piece_tiles: Vec<Colour> = Vec::new();
        let mut attach_points: Vec<ColourSet> = Vec::new();
        let mut k: usize = 0;
        while k < 100
            invariant
                k <= 100,
                score_tiles@ == Seq::new(k as nat, |j: int| Player::Neither),
                piece_tiles@ == Seq::new(k as nat, |j: int| Colour::Empty),
                attach_points@ == Seq::new(k as nat, |j: int| full_set()),
            decreases 100 - k,
        {
            score_tiles.push(Player::Neither);
            piece_tiles.push(Colour::Empty);
            attach_points.push(ColourSet { l: true, i: true, t: true, s: true });
            k = k + 1;
            proof {
                assert(score_tiles@ =~= Seq::new(k as nat, |j: int| Player::Neither));
                assert(piece_tiles@ =~= Seq::new(k as nat, |j: int| Colour::Empty));
                assert(attach_points@ =~= Seq::new(k as nat, |j: int| full_set()));
            }
        }
        let pieces_remaining = vec![5usize, 5, 5, 5];
        let r = Board { score_tiles, piece_tiles, pieces_remaining, attach_points, to_move: Player::X };
        proof {
            assert(is_blank(r.piece_tiles@));
            assert(r.attach_points@ =~= scratch_attach(r.piece_tiles@));
            assert(r.pieces_remaining@ =~= seq![5usize, 5, 5, 5]);
        }
        r
    }

    /// The tile colour at `(x, y)`, `Empty` off the board.
    fn tile_at(&self, x: i32, y: i32) -> (r: Colour)
        requires
            self.piece_tiles@.len() == 100,
        ensures
            r == tile(self.piece_tiles@, x as int, y as int),
    {
        if 0 <= x && x <= 9 && 0 <= y && y <= 9 {
            self.piece_tiles[(10 * x + y) as usize]
        } else {
            Colour::Empty
        }
    }

    /// Whether no tile is covered.
    fn is_blank_board(&self) -> (r: bool)
        requires
            self.piece_tiles@.len() == 100,
        ensures
            r == is_blank(self.piece_tiles@),
    {
        let mut k: usize = 0;
        while k < 100
            invariant
                k <= 100,
                self.piece_tiles@.len() == 100,
                forall|j: int| 0 <= j < k ==> self.piece_tiles@[j] == Colour::Empty,
            decreases 100 - k,
        {
            if self.piece_tiles[k] != Colour::Empty {
                return false;
            }
            k = k + 1;
        }
        true
    }

    /// The colours that may attach at `(x, y)` by the local rule.
    fn local_attach_set(&self, x: i32, y: i32) -> (r: ColourSet)
        requires
            self.piece_tiles@.len() == 100,
            -10 <= x <= 20,
            -10 <= y <= 20,
        ensures
            r == local_set(self.piece_tiles@, x as int, y as int),
    {
        let here = self.tile_at(x, y);
        let a = self.tile_at(x - 1, y);
        let b = self.tile_at(x + 1, y);
        let c = self.tile_at(x, y - 1);
        let d = self.tile_at(x, y + 1);
        if here != Colour::Empty || (a == Colour::Empty && b == Colour::Empty && c == Colour::Empty
            && d == Colour::Empty) {
            return ColourSet { l: false, i: false, t: false, s: false };
        }
        ColourSet {
            l: a != Colour::L && b != Colour::L && c != Colour::L && d != Colour::L,
            i: a != Colour::I && b != Colour::I && c != Colour::I && d != Colour::I,
            t: a != Colour::T && b != Colour::T && c != Colour::T && d != Colour::T,
            s: a != Colour::S && b != Colour::S && c != Colour::S && d != Colour::S,
        }
    }

    /// Recalculates the whole attach index from the tiles; very inefficient as
    /// it simply brute forces.
    pub fn calculate_attach_points_from_scratch(&mut self)
        requires
            old(self)@.pieces.len() == 100,
            old(self)@.attach.len() == 100,
        ensures
            final(self)@ == (BoardView { attach: scratch_attach(old(self)@.pieces), ..old(self)@ }),
    {
        let blank = self.is_blank_board();
        let ghost pieces = self.piece_tiles@;
        let mut k: usize = 0;
        while k < 100
            invariant
                k <= 100,
                self.piece_tiles@ == pieces,
                pieces.len() == 100,
                blank == is_blank(pieces),
                self.attach_points@.len() == 100,
                forall|j: int| 0 <= j < k ==> self.attach_points@[j] == scratch_attach(pieces)[j],
                self.score_tiles@ == old(self).score_tiles@,
                self.pieces_remaining@ == old(self).pieces_remaining@,
                self.to_move == old(self).to_move,
            decreases 100 - k,
        {
            let x: i32 = (k / 10) as i32;
            let y: i32 = (k % 10) as i32;
            let set = if blank {
                ColourSet { l: true, i: true, t: true, s: true }
            } else {
                self.local_attach_set(x, y)
            };
            self.attach_points.set(k, set);
            k = k + 1;
        }
        assert(self.attach_points@ =~= scratch_attach(pieces));
    }

    /// Whether `(x, y)` is covered once the points are added.
    fn covered_after_at(&self, pts: &Vec<Point>, x: i32, y: i32) -> (r: bool)
        requires
            self.piece_tiles@.len() == 100,
        ensures
            r == covered_after(self.piece_tiles@, pts@, x as int, y as int),
    {
        if self.tile_at(x, y) != Colour::Empty {
            return true;
        }
        let mut i: usize = 0;
        while i < pts.len()
            invariant
                i <= pts@.len(),
                forall|k: int| 0 <= k < i ==> pts@[k] != (Point { x, y }),
            decreases pts@.len() - i,
        {
            if pts[i].x == x && pts[i].y == y {
                assert(pts@[i as int] == (Point { x, y }));
                return true;
            }
            i = i + 1;
        }
        false
    }

    /// Determines whether adding the points completes a 2x2 block of covered
    /// tiles inside the 6x6 window around their bounding box, the only region
    /// where a new block can arise.
    pub fn tetromino_attach_forms_o(&self, points: &Vec<Point>) -> (r: bool)
        requires
            self@.pieces.len() == 100,
            points@.len() > 0,
            forall|i: int| 0 <= i < points@.len() ==> small(#[trigger] points@[i]),
        ensures
            r == forms_o_in_window(self@.pieces, points@, min_x(points@) - 1, min_y(points@) - 1),
    {
        let mut norm = points.clone();
        assert(norm@ =~= points@);
        let anchor = Transform::normalize(&mut norm);
        proof {
            lemma_min_bounds(points@);
            let kx = choose|k: int| 0 <= k < points@.len() && min_x(points@) == (#[trigger] points@[k]).x;
            let ky = choose|k: int| 0 <= k < points@.len() && min_y(points@) == (#[trigger] points@[k]).y;
            assert(small(points@[kx]) && small(points@[ky]));
        }
        let ox = anchor.x - 1;
        let oy = anchor.y - 1;
        let ghost pieces = self@.pieces;
        let mut i: i32 = 0;
        while i < 5
            invariant
                0 <= i <= 5,
                ox == min_x(points@) - 1,
                oy == min_y(points@) - 1,
                small(anchor),
                ox == anchor.x - 1,
                oy == anchor.y - 1,
                pieces == self@.pieces,
                pieces.len() == 100,
                forall|a: int, b: int|
                    0 <= a < i && 0 <= b < 5 ==> !#[trigger] window_block(pieces, points@, ox as int, oy as int, a, b),
            decreases 5 - i,
        {
            let mut j: i32 = 0;
            while j < 5
                invariant
                    0 <= i < 5,
                    0 <= j <= 5,
                    ox == min_x(points@) - 1,
                    oy == min_y(points@) - 1,
                    small(anchor),
                    ox == anchor.x - 1,
                    oy == anchor.y - 1,
                    pieces == self@.pieces,
                    pieces.len() == 100,
                    forall|a: int, b: int|
                        (0 <= a < i && 0 <= b < 5) || (a == i && 0 <= b < j) ==> !#[trigger] window_block(
                            pieces,
                            points@,
                            ox as int,
                            oy as int,
                            a,
                            b,
                        ),
                decreases 5 - j,
            {
                let x = ox + i;
                let y = oy + j;
                if self.covered_after_at(points, x, y) && self.covered_after_at(points, x + 1, y)
                    && self.covered_after_at(points, x, y + 1) && self.covered_after_at(points, x + 1, y + 1) {
                    assert(window_block(pieces, points@, ox as int, oy as int, i as int, j as int));
                    return true;
                }
                j = j + 1;
            }
            i = i + 1;
        }
        false
    }

    /// Determines whether an on-board neighbour of the point has the given colour.
    pub fn point_attach_same_colour(&self, point: &Point, colour: &Colour) -> (r: bool)
        requires
            self@.pieces.len() == 100,
            point.steppable(),
        ensures
            r == exists|k: int|
                0 <= k < point.spec_neighbours_on_board().len() && self@.pieces[(#[trigger] point.spec_neighbours_on_board()[k]).cell()]
                    == *colour,
            colour.is_piece() ==> r == next_to(self@.pieces, point.x as int, point.y as int, *colour),
    {
        let ns = point.neighbours_on_board();
        let ghost pieces = self@.pieces;
        let mut i: usize = 0;
        while i < ns.len()
            invariant
                i <= ns@.len(),
                ns@ == point.spec_neighbours_on_board(),
                point.steppable(),
                pieces == self@.pieces,
                pieces.len() == 100,
                forall|k: int| 0 <= k < ns@.len() ==> (#[trigger] ns@[k]).on(),
                forall|k: int| 0 <= k < i ==> pieces[(#[trigger] ns@[k]).cell()] != *colour,
            decreases ns@.len() - i,
        {
            let q = ns[i];
            assert(q.on());
            if self.piece_tiles[(10 * q.x + q.y) as usize] == *colour {
                proof {
                    lemma_neighbours_on_board_next_to(pieces, *point, *colour);
                }
                return true;
            }
            i = i + 1;
        }
        proof {
            lemma_neighbours_on_board_next_to(pieces, *point, *colour);
        }
        false
    }

    /// Determines whether the given point is an attach point.
    pub fn point_attach_exists(&self, point: &Point) -> (r: bool)
        requires
            self@.attach.len() == 100,
        ensures
            r == (point.on() && !self@.attach[point.cell()].spec_is_empty()),
    {
        if !point.in_bounds() {
            return false;
        }
        !self.attach_points[(10 * point.x + point.y) as usize].is_empty()
    }

    /// Determines whether playing the given tetromino is legal in this position.
    pub fn validate_tetromino(&self, tetromino: &Tetromino) -> (r: Result<(), LitsError>)
        requires
            self@.wf(),
            tetromino@.wf(),
        ensures
            r == validation(self@, tetromino@),
    {
        proof {
            lemma_wf_points(tetromino@);
        }
        let pts = tetromino.points_real();
        let colour = tetromino.colour();
        if self.pieces_remaining[colour.as_index()] == 0 {
            return Err(LitsError::NoSuchPiece);
        }
        let mut i: usize = 0;
        while i < 4
            invariant
                i <= 4,
                self@.wf(),
                tetromino@.wf(),
                colour == tetromino@.colour,
                self@.remaining[colour.index()] != 0,
                pts@ == tetromino@.real_points(),
                pts@.len() == 4,
                forall|k: int| 0 <= k < i ==> (#[trigger] pts@[k]).on(),
            decreases 4 - i,
        {
            if !pts[i].in_bounds() {
                assert(!tetromino@.real_points()[i as int].on());
                return Err(LitsError::OutOfBounds);
            }
            i = i + 1;
        }
        let mut i: usize = 0;
        while i < 4
            invariant
                i <= 4,
                self@.wf(),
                pts@ == tetromino@.real_points(),
                pts@.len() == 4,
                forall|k: int| 0 <= k < 4 ==> (#[trigger] pts@[k]).on(),
                tetromino@.wf(),
                colour == tetromino@.colour,
                self@.remaining[colour.index()] != 0,
                forall|k: int| 0 <= k < i ==> self@.pieces[(#[trigger] pts@[k]).cell()] == Colour::Empty,
            decreases 4 - i,
        {
            let p = pts[i];
            assert(p.on());
            if self.piece_tiles[(10 * p.x + p.y) as usize] != Colour::Empty {
                assert(self@.pieces[tetromino@.real_points()[i as int].cell()] != Colour::Empty);
                return Err(LitsError::Overlap);
            }
            i = i + 1;
        }
        let mut any = false;
        let mut i: usize = 0;
        while i < 4
            invariant
                i <= 4,
                self@.wf(),
                pts@ == tetromino@.real_points(),
                pts@.len() == 4,
                forall|k: int| 0 <= k < 4 ==> (#[trigger] pts@[k]).on(),
                tetromino@.wf(),
                colour == tetromino@.colour,
                self@.remaining[colour.index()] != 0,
                forall|k: int| 0 <= k < 4 ==> self@.pieces[(#[trigger] pts@[k]).cell()] == Colour::Empty,
                any == exists|k: int| 0 <= k < i && !self@.attach[(#[trigger] pts@[k]).cell()].spec_is_empty(),
            decreases 4 - i,
        {
            if self.point_attach_exists(&pts[i]) {
                any = true;
            }
            i = i + 1;
        }
        if !any {
            return Err(LitsError::NoAttach);
        }
        let mut i: usize = 0;
        while i < 4
            invariant
                i <= 4,
                self@.wf(),
                pts@ == tetromino@.real_points(),
                pts@.len() == 4,
                forall|k: int| 0 <= k < 4 ==> (#[trigger] pts@[k]).on(),
                tetromino@.wf(),
                colour == tetromino@.colour,
                self@.remaining[colour.index()] != 0,
                forall|k: int| 0 <= k < 4 ==> self@.pieces[(#[trigger] pts@[k]).cell()] == Colour::Empty,
                exists|k: int| 0 <= k < 4 && !self@.attach[(#[trigger] pts@[k]).cell()].spec_is_empty(),
                forall|k: int|
                    0 <= k < i ==> !next_to(self@.pieces, (#[trigger] pts@[k]).x as int, pts@[k].y as int, colour),
            decreases 4 - i,
        {
            if self.point_attach_same_colour(&pts[i], &colour) {
                let ghost q = tetromino@.real_points()[i as int];
                assert(next_to(self@.pieces, q.x as int, q.y as int, colour));
                return Err(LitsError::SameColourAdjacent);
            }
            i = i + 1;
        }
        proof {
            lemma_real_min(tetromino@);
            assert forall|k: int| 0 <= k < pts@.len() implies small(#[trigger] pts@[k]) by {
                assert(pts@[k].on());
            }
        }
        if self.tetromino_attach_forms_o(&pts) {
            return Err(LitsError::FormsO);
        }
        Ok(())
    }

    /// Determines whether the given tetromino stands on this board.
    pub fn tetromino_exists(&self, tetromino: &Tetromino) -> (r: bool)
        requires
            self@.pieces.len() == 100,
            tetromino@.is_small(),
        ensures
            r == stands_on(self@, tetromino@),
    {
        let pts = tetromino.points_real();
        let colour = tetromino.colour();
        let mut i: usize = 0;
        while i < pts.len()
            invariant
                i <= pts@.len(),
                pts@ == tetromino@.real_points(),
                colour == tetromino@.colour,
                self@.pieces.len() == 100,
                forall|k: int|
                    0 <= k < i ==> (#[trigger] pts@[k]).on() && self@.pieces[pts@[k].cell()] == colour,
            decreases pts@.len() - i,
        {
            let p = pts[i];
            if !p.in_bounds() {
                assert(!tetromino@.real_points()[i as int].on());
                return false;
            }
            if self.piece_tiles[(10 * p.x + p.y) as usize] != colour {
                assert(self@.pieces[tetromino@.real_points()[i as int].cell()] != colour);
                return false;
            }
            i = i + 1;
        }
        true
    }

    /// Sets the tiles of the tetromino to the colour.
    fn set_tiles(&mut self, tetromino: &Tetromino, colour: Colour)
        requires
            old(self).piece_tiles@.len() == 100,
            tetromino@.wf(),
            forall|i: int|
                0 <= i < tetromino@.real_points().len() ==> (#[trigger] tetromino@.real_points()[i]).on(),
        ensures
            final(self)@ == (BoardView { pieces: paint(old(self)@.pieces, tetromino@, colour), ..old(self)@ }),
    {
        proof {
            lemma_wf_points(tetromino@);
        }
        let pts = tetromino.points_real();
        let ghost before = self@.pieces;
        proof {
            assert(self@.pieces =~= paint_prefix(before, pts@, 0, colour));
        }
        let mut i: usize = 0;
        while i < 4
            invariant
                i <= 4,
                pts@ == tetromino@.real_points(),
                pts@.len() == 4,
                forall|k: int| 0 <= k < 4 ==> (#[trigger] pts@[k]).on(),
                before.len() == 100,
                self@ == (BoardView { pieces: paint_prefix(before, pts@, i as int, colour), ..old(self)@ }),
            decreases 4 - i,
        {
            let p = pts[i];
            assert(p.on());
            let ghost prev = self@;
            self.piece_tiles.set((10 * p.x + p.y) as usize, colour);
            i = i + 1;
            proof {
                let want = paint_prefix(before, pts@, i as int, colour);
                assert forall|k: int| 0 <= k < 100 implies self.piece_tiles@[k] == want[k] by {
                    if k == p.cell() {
                        assert(pts@[i - 1].cell() == k);
                    } else {
                        if exists|j: int| 0 <= j < i && (#[trigger] pts@[j]).cell() == k {
                            let j = choose|j: int| 0 <= j < i && (#[trigger] pts@[j]).cell() == k;
                            assert(j < i - 1);
                        }
                    }
                }
                assert(self.piece_tiles@ =~= want);
            }
        }
        assert(self@.pieces =~= paint(before, tetromino@, colour));
    }

    /// Whether every covered tile is a tile of the tetromino.
    fn only_piece(&self, tetromino: &Tetromino) -> (r: bool)
        requires
            self.piece_tiles@.len() == 100,
            tetromino@.wf(),
            forall|i: int|
                0 <= i < tetromino@.real_points().len() ==> (#[trigger] tetromino@.real_points()[i]).on(),
        ensures
            r == forall|k: int| 0 <= k < 100 && self.piece_tiles@[k] != Colour::Empty ==> covers(tetromino@, k),
    {
        proof {
            lemma_wf_points(tetromino@);
        }
        let pts = tetromino.points_real();
        let c0 = (10 * pts[0].x + pts[0].y) as usize;
        let c1 = (10 * pts[1].x + pts[1].y) as usize;
        let c2 = (10 * pts[2].x + pts[2].y) as usize;
        let c3 = (10 * pts[3].x + pts[3].y) as usize;
        let ghost t = tetromino@;
        proof {
            assert(pts@[0].on() && pts@[1].on() && pts@[2].on() && pts@[3].on());
            assert forall|k: int| covers(t, k) <==> (k == c0 || k == c1 || k == c2 || k == c3) by {
                if covers(t, k) {
                    let j = choose|j: int| 0 <= j < t.real_points().len() && (#[trigger] t.real_points()[j]).cell() == k;
                    assert(j == 0 || j == 1 || j == 2 || j == 3);
                }
                if k == c0 {
                    assert(t.real_points()[0].cell() == k);
                }
                if k == c1 {
                    assert(t.real_points()[1].cell() == k);
                }
                if k == c2 {
                    assert(t.real_points()[2].cell() == k);
                }
                if k == c3 {
                    assert(t.real_points()[3].cell() == k);
                }
            }
        }
        let mut k: usize = 0;
        while k < 100
            invariant
                k <= 100,
                self.piece_tiles@.len() == 100,
                t == tetromino@,
                forall|j: int| covers(t, j) <==> (j == c0 || j == c1 || j == c2 || j == c3),
                forall|j: int| 0 <= j < k && self.piece_tiles@[j] != Colour::Empty ==> covers(t, j),
            decreases 100 - k,
        {
            if self.piece_tiles[k] != Colour::Empty && k != c0 && k != c1 && k != c2 && k != c3 {
                assert(!covers(t, k as int));
                return false;
            }
            k = k + 1;
        }
        true
    }

    /// Recomputes the attach sets in the 6x6 window with corner `(ox, oy)` by
    /// the local rule.
    fn refresh_window(&mut self, ox: i32, oy: i32)
        requires
            old(self).piece_tiles@.len() == 100,
            old(self).attach_points@.len() == 100,
            -10 <= ox <= 10,
            -10 <= oy <= 10,
        ensures
            final(self)@.score == old(self)@.score,
            final(self)@.pieces == old(self)@.pieces,
            final(self)@.remaining == old(self)@.remaining,
            final(self)@.to_move == old(self)@.to_move,
            final(self)@.attach.len() == 100,
            forall|a: int, b: int|
                on_board(a, b) ==> #[trigger] final(self)@.attach[cell_of(a, b)] == if in_window(ox as int, oy as int, a, b) {
                    local_set(old(self)@.pieces, a, b)
                } else {
                    old(self)@.attach[cell_of(a, b)]
                },
    {
        let ghost before = self@;
        let mut x: i32 = ox;
        while x < ox + 6
            invariant
                ox <= x <= ox + 6,
                -10 <= ox <= 10,
                -10 <= oy <= 10,
                self@.score == before.score,
                self@.pieces == before.pieces,
                self@.remaining == before.remaining,
                self@.to_move == before.to_move,
                before.pieces.len() == 100,
                self@.attach.len() == 100,
                forall|a: int, b: int|
                    on_board(a, b) ==> #[trigger] self@.attach[cell_of(a, b)] == if ox <= a < x && oy <= b < oy + 6 {
                        local_set(before.pieces, a, b)
                    } else {
                        before.attach[cell_of(a, b)]
                    },
            decreases ox + 6 - x,
        {
            let mut y: i32 = oy;
            while y < oy + 6
                invariant
                    ox <= x < ox + 6,
                    oy <= y <= oy + 6,
                    -10 <= ox <= 10,
                    -10 <= oy <= 10,
                    self@.score == before.score,
                    self@.pieces == before.pieces,
                    self@.remaining == before.remaining,
                    self@.to_move == before.to_move,
                    before.pieces.len() == 100,
                    self@.attach.len() == 100,
                    forall|a: int, b: int|
                        on_board(a, b) ==> #[trigger] self@.attach[cell_of(a, b)] == if (ox <= a < x && oy <= b
                            < oy + 6) || (a == x && oy <= b < y) {
                            local_set(before.pieces, a, b)
                        } else {
                            before.attach[cell_of(a, b)]
                        },
                decreases oy + 6 - y,
            {
                if 0 <= x && x <= 9 && 0 <= y && y <= 9 {
                    let set = self.local_attach_set(x, y);
                    self.attach_points.set((10 * x + y) as usize, set);
                }
                y = y + 1;
            }
            x = x + 1;
        }
    }

    /// Brings the attach index up to date after the tetromino was put on the
    /// tiles: from scratch when it is the only piece on the board (or the pool
    /// is one short of full), else by refreshing the window around it.
    pub fn update_attach_points_add(&mut self, tetromino: &Tetromino)
        requires
            old(self)@.pieces.len() == 100,
            old(self)@.attach.len() == 100,
            old(self)@.remaining.len() == 4,
            forall|i: int| 0 <= i < 4 ==> old(self)@.remaining[i] <= 5,
            tetromino@.wf(),
            stands_on(old(self)@, tetromino@),
            old(self)@.attach == scratch_attach(paint(old(self)@.pieces, tetromino@, Colour::Empty)),
        ensures
            final(self)@ == (BoardView { attach: scratch_attach(old(self)@.pieces), ..old(self)@ }),
    {
        proof {
            lemma_wf_points(tetromino@);
        }
        let sum = self.pieces_remaining[0] + self.pieces_remaining[1] + self.pieces_remaining[2]
            + self.pieces_remaining[3];
        if sum == 19 || self.only_piece(tetromino) {
            self.calculate_attach_points_from_scratch();
        } else {
            let ghost before = self@;
            let anchor = tetromino.anchor();
            proof {
                let t = tetromino@;
                let prior = paint(before.pieces, t, Colour::Empty);
                let k = choose|k: int| 0 <= k < 100 && before.pieces[k] != Colour::Empty && !covers(t, k);
                assert(prior[k] != Colour::Empty);
                let c0 = t.real_points()[0].cell();
                assert(before.pieces[c0] != Colour::Empty);
                assert(t.real_points()[0].on());
                assert(offsets_in_box(t.points));
                assert(0 <= t.points[0].x <= 3 && 0 <= t.points[0].y <= 3);
                assert(-3 <= anchor.x <= 9 && -3 <= anchor.y <= 9);
            }
            self.refresh_window(anchor.x - 1, anchor.y - 1);
            proof {
                let t = tetromino@;
                lemma_refresh_gives_scratch(
                    paint(before.pieces, t, Colour::Empty),
                    before.pieces,
                    before.attach,
                    self@.attach,
                    t,
                );
            }
        }
    }

    /// Brings the attach index up to date after the tetromino was taken off the
    /// tiles: from scratch when the board is now blank (or the pool is full),
    /// else by refreshing the window around it.
    pub fn update_attach_points_sub(&mut self, tetromino: &Tetromino)
        requires
            old(self)@.pieces.len() == 100,
            old(self)@.attach.len() == 100,
            old(self)@.remaining.len() == 4,
            forall|i: int| 0 <= i < 4 ==> old(self)@.remaining[i] <= 5,
            tetromino@.wf(),
            forall|i: int|
                0 <= i < tetromino@.real_points().len() ==> (#[trigger] tetromino@.real_points()[i]).on()
                    && old(self)@.pieces[tetromino@.real_points()[i].cell()] == Colour::Empty,
            old(self)@.attach == scratch_attach(paint(old(self)@.pieces, tetromino@, tetromino@.colour)),
        ensures
            final(self)@ == (BoardView { attach: scratch_attach(old(self)@.pieces), ..old(self)@ }),
    {
        proof {
            lemma_wf_points(tetromino@);
        }
        let sum = self.pieces_remaining[0] + self.pieces_remaining[1] + self.pieces_remaining[2]
            + self.pieces_remaining[3];
        if sum == 20 || self.is_blank_board() {
            self.calculate_attach_points_from_scratch();
        } else {
            let ghost before = self@;
            let anchor = tetromino.anchor();
            proof {
                let t = tetromino@;
                let prior = paint(before.pieces, t, t.colour);
                lemma_paint_cells(before.pieces, t, t.colour);
                assert(prior[t.real_points()[0].cell()] != Colour::Empty);
                assert(t.real_points()[0].on());
                assert(offsets_in_box(t.points));
                assert(0 <= t.points[0].x <= 3 && 0 <= t.points[0].y <= 3);
                assert(-3 <= anchor.x <= 9 && -3 <= anchor.y <= 9);
            }
            self.refresh_window(anchor.x - 1, anchor.y - 1);
            proof {
                let t = tetromino@;
                lemma_refresh_gives_scratch(
                    paint(before.pieces, t, t.colour),
                    before.pieces,
                    before.attach,
                    self@.attach,
                    t,
                );
            }
        }
    }

    /// Places the tetromino, provided it is a legal move, and updates the
    /// attach points on this board.
    pub fn place_tetromino(&mut self, tetromino: &Tetromino) -> (r: Result<(), LitsError>)
        requires
            old(self)@.wf(),
            tetromino@.wf(),
        ensures
            r == validation(old(self)@, tetromino@),
            r is Ok ==> final(self)@ == place_model(old(self)@, tetromino@),
            r is Err ==> final(self)@ == old(self)@,
            final(self)@.wf(),
    {
        match self.validate_tetromino(tetromino) {
            Err(e) => {
                return Err(e);
            },
            Ok(()) => {},
        }
        let ghost before = self@;
        let ghost t = tetromino@;
        proof {
            lemma_wf_points(t);
            let pts = t.real_points();
            assert forall|i: int| 0 <= i < pts.len() implies (#[trigger] pts[i]).on() by {
                if !pts[i].on() {
                    assert(validation(before, t) == Err::<(), LitsError>(LitsError::OutOfBounds));
                }
            }
            assert forall|i: int| 0 <= i < pts.len() implies before.pieces[(#[trigger] pts[i]).cell()]
                == Colour::Empty by {
                if before.pieces[pts[i].cell()] != Colour::Empty {
                    assert(validation(before, t) == Err::<(), LitsError>(LitsError::Overlap));
                }
            }
        }
        let colour = tetromino.colour();
        let ci = colour.as_index();
        let n = self.pieces_remaining[ci];
        self.pieces_remaining.set(ci, n - 1);
        self.set_tiles(tetromino, colour);
        self.to_move = self.to_move.next();
        proof {
            lemma_paint_cells(before.pieces, t, colour);
            lemma_paint_back(before.pieces, t, colour, Colour::Empty);
        }
        self.update_attach_points_add(tetromino);
        proof {
            lemma_place_wf(before, t);
        }
        Ok(())
    }

    /// Removes the given tetromino from the board, provided it stands there.
    pub fn undo_tetromino(&mut self, tetromino: &Tetromino) -> (r: Result<(), LitsError>)
        requires
            old(self)@.wf(),
            tetromino@.wf(),
        ensures
            r == undo_check(old(self)@, tetromino@),
            r is Ok ==> final(self)@ == undo_model(old(self)@, tetromino@),
            r is Err ==> final(self)@ == old(self)@,
            final(self)@.wf(),
    {
        proof {
            lemma_wf_points(tetromino@);
        }
        let colour = tetromino.colour();
        let ci = colour.as_index();
        if self.pieces_remaining[ci] >= 5 {
            return Err(LitsError::NoRemainingUndo);
        }
        if !self.tetromino_exists(tetromino) {
            return Err(LitsError::PieceNotOnBoard);
        }
        let ghost before = self@;
        let ghost t = tetromino@;
        let n = self.pieces_remaining[ci];
        self.pieces_remaining.set(ci, n + 1);
        self.set_tiles(tetromino, Colour::Empty);
        self.to_move = self.to_move.next();
        proof {
            lemma_paint_cells(before.pieces, t, Colour::Empty);
            lemma_paint_back(before.pieces, t, Colour::Empty, colour);
        }
        self.update_attach_points_sub(tetromino);
        proof {
            lemma_undo_wf(before, t);
        }
        Ok(())
    }

    /// Returns a new board with the given state, rows indexed by x then y.
    pub fn new(
        score_tiles: &Vec<Vec<Player>>,
        piece_tiles: &Vec<Vec<Colour>>,
        remaining: &Vec<usize>,
        to_move: Player,
    ) -> (r: Result<Board, LitsError>)
        requires
            score_tiles@.len() == 10,
            piece_tiles@.len() == 10,
            forall|i: int| 0 <= i < 10 ==> (#[trigger] score_tiles@[i])@.len() == 10,
            forall|i: int| 0 <= i < 10 ==> (#[trigger] piece_tiles@[i])@.len() == 10,
            remaining@.len() == 4,
            to_move.is_side(),
        ensures
            match r {
                Ok(b) => {
                    &&& forall|i: int| 0 <= i < 4 ==> remaining@[i] <= 5
                    &&& b@.wf()
                    &&& b@.score == flatten(score_tiles@)
                    &&& b@.pieces == flatten(piece_tiles@)
                    &&& b@.remaining == remaining@
                    &&& b@.to_move == to_move
                },
                Err(e) => e == LitsError::InvalidPieceCount && exists|i: int| 0 <= i < 4 && remaining@[i] > 5,
            },
    {
        let mut i: usize = 0;
        while i < 4
            invariant
                i <= 4,
                remaining@.len() == 4,
                forall|k: int| 0 <= k < i ==> remaining@[k] <= 5,
            decreases 4 - i,
        {
            if remaining[i] > 5 {
                return Err(LitsError::InvalidPieceCount);
            }
            i = i + 1;
        }
        let mut scores: Vec<Player> = Vec::new();
        let mut pieces: Vec<Colour> = Vec::new();
        let mut attach: Vec<ColourSet> = Vec::new();
        let mut k: usize = 0;
        while k < 100
            invariant
                k <= 100,
                score_tiles@.len() == 10,
                piece_tiles@.len() == 10,
                forall|i: int| 0 <= i < 10 ==> (#[trigger] score_tiles@[i])@.len() == 10,
                forall|i: int| 0 <= i < 10 ==> (#[trigger] piece_tiles@[i])@.len() == 10,
                scores@ == flatten(score_tiles@).take(k as int),
                pieces@ == flatten(piece_tiles@).take(k as int),
                attach@.len() == k,
            decreases 100 - k,
        {
            let x = k / 10;
            let y = k % 10;
            scores.push(score_tiles[x][y]);
            pieces.push(piece_tiles[x][y]);
            attach.push(ColourSet { l: false, i: false, t: false, s: false });
            k = k + 1;
            proof {
                assert(scores@ =~= flatten(score_tiles@).take(k as int));
                assert(pieces@ =~= flatten(piece_tiles@).take(k as int));
            }
        }
        proof {
            assert(scores@ =~= flatten(score_tiles@));
            assert(pieces@ =~= flatten(piece_tiles@));
        }
        let mut b = Board {
            score_tiles: scores,
            piece_tiles: pieces,
            pieces_remaining: remaining.clone(),
            attach_points: attach,
            to_move,
        };
        assert(b.pieces_remaining@ =~= remaining@);
        b.calculate_attach_points_from_scratch();
        Ok(b)
    }

    /// Returns the colour at the given tile.
    pub fn colour_at(&self, i: i32, j: i32) -> (r: Colour)
        requires
            self@.wf(),
            on_board(i as int, j as int),
        ensures
            r == self@.pieces[cell_of(i as int, j as int)],
    {
        self.piece_tiles[(10 * i + j) as usize]
    }

    /// Returns the owner of the given tile.
    pub fn player_at(&self, i: i32, j: i32) -> (r: Player)
        requires
            self@.wf(),
            on_board(i as int, j as int),
        ensures
            r == self@.score[cell_of(i as int, j as int)],
    {
        self.score_tiles[(10 * i + j) as usize]
    }

    /// Gets the number of tetrominoes of the given colour left to be played.
    pub fn remaining_of(&self, colour: &Colour) -> (r: usize)
        requires
            self@.wf(),
            colour.is_piece(),
        ensures
            r == self@.remaining[colour.index()],
    {
        self.pieces_remaining[colour.as_index()]
    }

    /// Returns the player to move.
    pub fn to_move(&self) -> (r: Player)
        ensures
            r == self@.to_move,
    {
        self.to_move
    }

    /// Sets the owner of the tile at the given position.
    pub fn set_scoring_tile(&mut self, i: usize, j: usize, player: &Player)
        requires
            old(self)@.wf(),
            i < 10,
            j < 10,
        ensures
            final(self)@ == (BoardView {
                score: old(self)@.score.update(cell_of(i as int, j as int), *player),
                ..old(self)@
            }),
            final(self)@.wf(),
    {
        self.score_tiles.set(10 * i + j, *player);
    }

    /// Cycles the colour at this tile for setup purposes; the attach index is
    /// recomputed.
    pub fn cycle_colour(&mut self, i: i32, j: i32)
        requires
            old(self)@.wf(),
            on_board(i as int, j as int),
        ensures
            final(self)@.wf(),
            final(self)@.pieces == old(self)@.pieces.update(
                cell_of(i as int, j as int),
                old(self)@.pieces[cell_of(i as int, j as int)].next_and_none_spec(),
            ),
            final(self)@.score == old(self)@.score,
            final(self)@.remaining == old(self)@.remaining,
            final(self)@.to_move == old(self)@.to_move,
    {
        let k = (10 * i + j) as usize;
        let c = self.piece_tiles[k].next_and_none();
        self.piece_tiles.set(k, c);
        self.calculate_attach_points_from_scratch();
    }

    /// Cycles the owner of this tile for setup purposes.
    pub fn cycle_player(&mut self, i: i32, j: i32)
        requires
            old(self)@.wf(),
            on_board(i as int, j as int),
        ensures
            final(self)@.wf(),
            final(self)@ == (BoardView {
                score: old(self)@.score.update(
                    cell_of(i as int, j as int),
                    old(self)@.score[cell_of(i as int, j as int)].next_and_none_spec(),
                ),
                ..old(self)@
            }),
    {
        let k = (10 * i + j) as usize;
        let p = self.score_tiles[k].next_and_none();
        self.score_tiles.set(k, p);
    }

    /// Returns the score of this board in X's frame: the owners' values summed
    /// over the uncovered tiles.
    pub fn score(&self) -> (r: i32)
        requires
            self@.wf(),
        ensures
            r == score_of(self@),
    {
        let mut sum: i32 = 0;
        let mut k: usize = 0;
        while k < 100
            invariant
                k <= 100,
                self@.wf(),
                sum == score_upto(self@.score, self@.pieces, k as int),
            decreases 100 - k,
        {
            proof {
                lemma_score_bounds(self@.score, self@.pieces, k as int);
            }
            if self.piece_tiles[k] == Colour::Empty {
                sum = sum + self.score_tiles[k].value();
            }
            k = k + 1;
        }
        sum
    }

    /// Assembles a board from its cells, computing the attach index.
    pub(crate) fn from_cells(score: Vec<Player>, pieces: Vec<Colour>, remaining: Vec<usize>, to_move: Player) -> (r: Board)
        requires
            score@.len() == 100,
            pieces@.len() == 100,
            remaining@.len() == 4,
            forall|i: int| 0 <= i < 4 ==> remaining@[i] <= 5,
            to_move.is_side(),
        ensures
            r@ == (BoardView {
                score: score@,
                pieces: pieces@,
                remaining: remaining@,
                attach: scratch_attach(pieces@),
                to_move,
            }),
            r@.wf(),
    {
        let mut attach: Vec<ColourSet> = Vec::new();
        let mut k: usize = 0;
        while k < 100
            invariant
                k <= 100,
                attach@.len() == k,
            decreases 100 - k,
        {
            attach.push(ColourSet { l: false, i: false, t: false, s: false });
            k = k + 1;
        }
        let mut b = Board { score_tiles: score, piece_tiles: pieces, pieces_remaining: remaining, attach_points: attach, to_move };
        b.calculate_attach_points_from_scratch();
        b
    }
}

} // verus!
