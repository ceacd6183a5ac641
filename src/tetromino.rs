use vstd::prelude::*;

use crate::colour::{Colour, colour_of_index};
use crate::error::LitsError;
use crate::point::Point;
use crate::transform::{
    Transform, canonical_transforms, lemma_canonical_transforms, lemma_min_bounds, min_x, min_y,
    normalized, small,
};

verus! {

/// A tetromino of The Battle of LITS.
///
/// It consists of:
/// - a colour, which fixes its shape;
/// - an anchor, the absolute position of the corner of its bounding box;
/// - its points, non-negative offsets from the anchor that outline the shape;
/// - the canonical transform that takes the colour's reference shape to it.
#[derive(Debug, Eq, Hash)]
pub struct Tetromino {
    colour: Colour,
    anchor: Point,
    points: Vec<Point>,
    transform: Transform,
}

/// The mathematical content of a tetromino.
pub struct TetrominoView {
    pub colour: Colour,
    pub anchor: Point,
    pub points: Seq<Point>,
    pub transform: Transform,
}

impl View for Tetromino {
    type V = TetrominoView;

    closed spec fn view(&self) -> TetrominoView {
        TetrominoView {
            colour: self.colour,
            anchor: self.anchor,
            points: self.points@,
            transform: self.transform,
        }
    }
}

/// The views of a sequence of tetrominoes.
pub open spec fn views(s: Seq<Tetromino>) -> Seq<TetrominoView> {
    s.map_values(|t: Tetromino| t@)
}

/// The reference (identity) shape of each piece colour.
pub open spec fn reference_points(colour: Colour) -> Seq<Point> {
    match colour {
        Colour::L => seq![Point { x: 0, y: 0 }, Point { x: 0, y: 1 }, Point { x: 0, y: 2 }, Point { x: 1, y: 2 }],
        Colour::I => seq![Point { x: 0, y: 0 }, Point { x: 0, y: 1 }, Point { x: 0, y: 2 }, Point { x: 0, y: 3 }],
        Colour::T => seq![Point { x: 0, y: 0 }, Point { x: 1, y: 1 }, Point { x: 1, y: 0 }, Point { x: 2, y: 0 }],
        _ => seq![Point { x: 0, y: 1 }, Point { x: 1, y: 1 }, Point { x: 1, y: 0 }, Point { x: 2, y: 0 }],
    }
}

/// The points `t` sends the reference shape to, before normalizing.
pub open spec fn transformed(s: Seq<Point>, t: Transform) -> Seq<Point> {
    s.map_values(|p: Point| t.spec_apply(p))
}

/// The relative points of the colour's shape under the (canonicalized) transform.
pub open spec fn shape(colour: Colour, t: Transform) -> Seq<Point> {
    normalized(transformed(reference_points(colour), t.spec_canonicalize(colour)))
}

/// The tetromino of the colour at the anchor under the canonical transform `t`.
pub open spec fn placement(colour: Colour, anchor: Point, t: Transform) -> TetrominoView {
    TetrominoView { colour, anchor, points: shape(colour, t), transform: t }
}

/// The null tetromino: the first placement on a blank board with the colour taken off.
pub open spec fn null_view() -> TetrominoView {
    TetrominoView {
        colour: Colour::Empty,
        anchor: Point { x: 0, y: 0 },
        points: shape(Colour::L, Transform::Identity),
        transform: Transform::Identity,
    }
}

/// Every offset lies in 0..=3.
pub open spec fn offsets_in_box(s: Seq<Point>) -> bool {
    forall|i: int| 0 <= i < s.len() ==> 0 <= (#[trigger] s[i]).x <= 3 && 0 <= s[i].y <= 3
}

/// Every point of the colour's shape under `t` is among `pts`.
pub open spec fn fits(colour: Colour, pts: Seq<Point>, t: Transform) -> bool {
    forall|i: int| 0 <= i < shape(colour, t).len() ==> pts.contains(#[trigger] shape(colour, t)[i])
}

/// Some canonical transform of the colour fits the points.
pub open spec fn colour_fits(colour: Colour, pts: Seq<Point>) -> bool {
    exists|j: int| 0 <= j < canonical_transforms(colour).len() && fits(colour, pts, #[trigger] canonical_transforms(colour)[j])
}

/// `t` is the placement at `anchor` under the first canonical transform of
/// the colour that fits the relative points.
pub open spec fn first_fit(colour: Colour, anchor: Point, pts: Seq<Point>, t: TetrominoView) -> bool {
    exists|j: int|
        0 <= j < canonical_transforms(colour).len() && fits(colour, pts, #[trigger] canonical_transforms(colour)[j])
            && (forall|k: int| 0 <= k < j ==> !fits(colour, pts, #[trigger] canonical_transforms(colour)[k]))
            && t == placement(colour, anchor, canonical_transforms(colour)[j])
}

/// `p` is an orthogonal neighbour of `q`.
pub open spec fn adjacent(p: Point, q: Point) -> bool {
    (p.x == q.x && (p.y == q.y + 1 || p.y + 1 == q.y)) || (p.y == q.y && (p.x == q.x + 1 || p.x + 1 == q.x))
}

/// `p` comes before `q` in the order of x, then y.
pub open spec fn point_before(p: Point, q: Point) -> bool {
    p.x < q.x || (p.x == q.x && p.y < q.y)
}

/// `p` is an on-board tile next to the tetromino and not one of its own.
pub open spec fn is_attach_of(t: TetrominoView, p: Point) -> bool {
    &&& p.on()
    &&& !t.real_points().contains(p)
    &&& exists|i: int| 0 <= i < t.real_points().len() && adjacent(p, #[trigger] t.real_points()[i])
}

impl TetrominoView {
    /// A tetromino as the constructors make it.
    pub open spec fn wf(self) -> bool {
        &&& self.colour.is_piece()
        &&& self.transform.is_canonical(self.colour)
        &&& self.points == shape(self.colour, self.transform)
        &&& small(self.anchor)
    }

    /// Absolute positions of the tiles.
    pub open spec fn real_points(self) -> Seq<Point> {
        self.points.map_values(
            |p: Point| Point { x: (self.anchor.x + p.x) as i32, y: (self.anchor.y + p.y) as i32 },
        )
    }

    /// Anchor and points are small enough for the arithmetic on them.
    pub open spec fn is_small(self) -> bool {
        small(self.anchor) && forall|i: int| 0 <= i < self.points.len() ==> small(#[trigger] self.points[i])
    }
}

/// A transform moves two points of the 4x4 box at most 3 apart on each axis.
proof fn lemma_apply_spread(t: Transform, p: Point, q: Point)
    requires
        0 <= p.x <= 3 && 0 <= p.y <= 3,
        0 <= q.x <= 3 && 0 <= q.y <= 3,
    ensures
        -3 <= t.spec_apply(p).x - t.spec_apply(q).x <= 3,
        -3 <= t.spec_apply(p).y - t.spec_apply(q).y <= 3,
{
}

/// The corner of four points' bounding box.
proof fn lemma_min4(s: Seq<Point>)
    requires
        s.len() == 4,
    ensures
        min_x(s) == vstd::math::min(vstd::math::min(vstd::math::min(s[0].x as int, s[1].x as int), s[2].x as int), s[3].x as int),
        min_y(s) == vstd::math::min(vstd::math::min(vstd::math::min(s[0].y as int, s[1].y as int), s[2].y as int), s[3].y as int),
{
    reveal_with_fuel(min_x, 4);
    reveal_with_fuel(min_y, 4);
    let s3 = s.drop_last();
    let s2 = s3.drop_last();
    let s1 = s2.drop_last();
    assert(s1.len() == 1 && s1[0] == s[0]);
    assert(s2[1] == s[1] && s3[2] == s[2]);
}

/// Canonicalizing a transform keeps the shape: the raw transform of the
/// reference piece covers the same relative points as the canonical one.
pub proof fn lemma_canonical_shape(colour: Colour, t: Transform)
    requires
        colour.is_piece(),
    ensures
        forall|i: int| 0 <= i < 4 ==> shape(colour, t).contains(#[trigger] normalized(transformed(reference_points(colour), t))[i]),
        forall|i: int| 0 <= i < 4 ==> normalized(transformed(reference_points(colour), t)).contains(#[trigger] shape(colour, t)[i]),
{
    let raw = transformed(reference_points(colour), t);
    let can = transformed(reference_points(colour), t.spec_canonicalize(colour));
    lemma_min4(raw);
    lemma_min4(can);
    let a = normalized(raw);
    let b = normalized(can);
    assert(raw.len() == 4 && can.len() == 4);
    match (colour, t) {
        (Colour::L, Transform::Identity) => {
            assert(a =~= seq![Point { x: 0, y: 0 }, Point { x: 0, y: 1 }, Point { x: 0, y: 2 }, Point { x: 1, y: 2 }]);
            assert(b =~= seq![Point { x: 0, y: 0 }, Point { x: 0, y: 1 }, Point { x: 0, y: 2 }, Point { x: 1, y: 2 }]);
            assert(b[0] == a[0] && a[0] == b[0]);
            assert(b[1] == a[1] && a[1] == b[1]);
            assert(b[2] == a[2] && a[2] == b[2]);
            assert(b[3] == a[3] && a[3] == b[3]);
        },
        (Colour::L, Transform::IdenRot90) => {
            assert(a =~= seq![Point { x: 0, y: 1 }, Point { x: 1, y: 1 }, Point { x: 2, y: 1 }, Point { x: 2, y: 0 }]);
            assert(b =~= seq![Point { x: 0, y: 1 }, Point { x: 1, y: 1 }, Point { x: 2, y: 1 }, Point { x: 2, y: 0 }]);
            assert(b[0] == a[0] && a[0] == b[0]);
            assert(b[1] == a[1] && a[1] == b[1]);
            assert(b[2] == a[2] && a[2] == b[2]);
            assert(b[3] == a[3] && a[3] == b[3]);
        },
        (Colour::L, Transform::IdenRot180) => {
            assert(a =~= seq![Point { x: 1, y: 2 }, Point { x: 1, y: 1 }, Point { x: 1, y: 0 }, Point { x: 0, y: 0 }]);
            assert(b =~= seq![Point { x: 1, y: 2 }, Point { x: 1, y: 1 }, Point { x: 1, y: 0 }, Point { x: 0, y: 0 }]);
            assert(b[0] == a[0] && a[0] == b[0]);
            assert(b[1] == a[1] && a[1] == b[1]);
            assert(b[2] == a[2] && a[2] == b[2]);
            assert(b[3] == a[3] && a[3] == b[3]);
        },
        (Colour::L, Transform::IdenRot270) => {
            assert(a =~= seq![Point { x: 2, y: 0 }, Point { x: 1, y: 0 }, Point { x: 0, y: 0 }, Point { x: 0, y: 1 }]);
            assert(b =~= seq![Point { x: 2, y: 0 }, Point { x: 1, y: 0 }, Point { x: 0, y: 0 }, Point { x: 0, y: 1 }]);
            assert(b[0] == a[0] && a[0] == b[0]);
            assert(b[1] == a[1] && a[1] == b[1]);
            assert(b[2] == a[2] && a[2] == b[2]);
            assert(b[3] == a[3] && a[3] == b[3]);
        },
        (Colour::L, Transform::Reflect) => {
            assert(a =~= seq![Point { x: 1, y: 0 }, Point { x: 1, y: 1 }, Point { x: 1, y: 2 }, Point { x: 0, y: 2 }]);
            assert(b =~= seq![Point { x: 1, y: 0 }, Point { x: 1, y: 1 }, Point { x: 1, y: 2 }, Point { x: 0, y: 2 }]);
            assert(b[0] == a[0] && a[0] == b[0]);
            assert(b[1] == a[1] && a[1] == b[1]);
            assert(b[2] == a[2] && a[2] == b[2]);
            assert(b[3] == a[3] && a[3] == b[3]);
        },
        (Colour::L, Transform::ReflRot90) => {
            assert(a =~= seq![Point { x: 0, y: 0 }, Point { x: 1, y: 0 }, Point { x: 2, y: 0 }, Point { x: 2, y: 1 }]);
            assert(b =~= seq![Point { x: 0, y: 0 }, Point { x: 1, y: 0 }, Point { x: 2, y: 0 }, Point { x: 2, y: 1 }]);
            assert(b[0] == a[0] && a[0] == b[0]);
            assert(b[1] == a[1] && a[1] == b[1]);
            assert(b[2] == a[2] && a[2] == b[2]);
            assert(b[3] == a[3] && a[3] == b[3]);
        },
        (Colour::L, Transform::ReflRot180) => {
            assert(a =~= seq![Point { x: 0, y: 2 }, Point { x: 0, y: 1 }, Point { x: 0, y: 0 }, Point { x: 1, y: 0 }]);
            assert(b =~= seq![Point { x: 0, y: 2 }, Point { x: 0, y: 1 }, Point { x: 0, y: 0 }, Point { x: 1, y: 0 }]);
            assert(b[0] == a[0] && a[0] == b[0]);
            assert(b[1] == a[1] && a[1] == b[1]);
            assert(b[2] == a[2] && a[2] == b[2]);
            assert(b[3] == a[3] && a[3] == b[3]);
        },
        (Colour::L, Transform::ReflRot270) => {
            assert(a =~= seq![Point { x: 2, y: 1 }, Point { x: 1, y: 1 }, Point { x: 0, y: 1 }, Point { x: 0, y: 0 }]);
            assert(b =~= seq![Point { x: 2, y: 1 }, Point { x: 1, y: 1 }, Point { x: 0, y: 1 }, Point { x: 0, y: 0 }]);
            assert(b[0] == a[0] && a[0] == b[0]);
            assert(b[1] == a[1] && a[1] == b[1]);
            assert(b[2] == a[2] && a[2] == b[2]);
            assert(b[3] == a[3] && a[3] == b[3]);
        },
        (Colour::I, Transform::Identity) => {
            assert(a =~= seq![Point { x: 0, y: 0 }, Point { x: 0, y: 1 }, Point { x: 0, y: 2 }, Point { x: 0, y: 3 }]);
            assert(b =~= seq![Point { x: 0, y: 0 }, Point { x: 0, y: 1 }, Point { x: 0, y: 2 }, Point { x: 0, y: 3 }]);
            assert(b[0] == a[0] && a[0] == b[0]);
            assert(b[1] == a[1] && a[1] == b[1]);
            assert(b[2] == a[2] && a[2] == b[2]);
            assert(b[3] == a[3] && a[3] == b[3]);
        },
        (Colour::I, Transform::IdenRot90) => {
            assert(a =~= seq![Point { x: 0, y: 0 }, Point { x: 1, y: 0 }, Point { x: 2, y: 0 }, Point { x: 3, y: 0 }]);
            assert(b =~= seq![Point { x: 0, y: 0 }, Point { x: 1, y: 0 }, Point { x: 2, y: 0 }, Point { x: 3, y: 0 }]);
            assert(b[0] == a[0] && a[0] == b[0]);
            assert(b[1] == a[1] && a[1] == b[1]);
            assert(b[2] == a[2] && a[2] == b[2]);
            assert(b[3] == a[3] && a[3] == b[3]);
        },
        (Colour::I, Transform::IdenRot180) => {
            assert(a =~= seq![Point { x: 0, y: 3 }, Point { x: 0, y: 2 }, Point { x: 0, y: 1 }, Point { x: 0, y: 0 }]);
            assert(b =~= seq![Point { x: 0, y: 0 }, Point { x: 0, y: 1 }, Point { x: 0, y: 2 }, Point { x: 0, y: 3 }]);
            assert(b[3] == a[0] && a[3] == b[0]);
            assert(b[2] == a[1] && a[2] == b[1]);
            assert(b[1] == a[2] && a[1] == b[2]);
            assert(b[0] == a[3] && a[0] == b[3]);
        },
        (Colour::I, Transform::IdenRot270) => {
            assert(a =~= seq![Point { x: 3, y: 0 }, Point { x: 2, y: 0 }, Point { x: 1, y: 0 }, Point { x: 0, y: 0 }]);
            assert(b =~= seq![Point { x: 0, y: 0 }, Point { x: 1, y: 0 }, Point { x: 2, y: 0 }, Point { x: 3, y: 0 }]);
            assert(b[3] == a[0] && a[3] == b[0]);
            assert(b[2] == a[1] && a[2] == b[1]);
            assert(b[1] == a[2] && a[1] == b[2]);
            assert(b[0] == a[3] && a[0] == b[3]);
        },
        (Colour::I, Transform::Reflect) => {
            assert(a =~= seq![Point { x: 0, y: 0 }, Point { x: 0, y: 1 }, Point { x: 0, y: 2 }, Point { x: 0, y: 3 }]);
            assert(b =~= seq![Point { x: 0, y: 0 }, Point { x: 0, y: 1 }, Point { x: 0, y: 2 }, Point { x: 0, y: 3 }]);
            assert(b[0] == a[0] && a[0] == b[0]);
            assert(b[1] == a[1] && a[1] == b[1]);
            assert(b[2] == a[2] && a[2] == b[2]);
            assert(b[3] == a[3] && a[3] == b[3]);
        },
        (Colour::I, Transform::ReflRot90) => {
            assert(a =~= seq![Point { x: 0, y: 0 }, Point { x: 1, y: 0 }, Point { x: 2, y: 0 }, Point { x: 3, y: 0 }]);
            assert(b =~= seq![Point { x: 0, y: 0 }, Point { x: 1, y: 0 }, Point { x: 2, y: 0 }, Point { x: 3, y: 0 }]);
            assert(b[0] == a[0] && a[0] == b[0]);
            assert(b[1] == a[1] && a[1] == b[1]);
            assert(b[2] == a[2] && a[2] == b[2]);
            assert(b[3] == a[3] && a[3] == b[3]);
        },
        (Colour::I, Transform::ReflRot180) => {
            assert(a =~= seq![Point { x: 0, y: 3 }, Point { x: 0, y: 2 }, Point { x: 0, y: 1 }, Point { x: 0, y: 0 }]);
            assert(b =~= seq![Point { x: 0, y: 0 }, Point { x: 0, y: 1 }, Point { x: 0, y: 2 }, Point { x: 0, y: 3 }]);
            assert(b[3] == a[0] && a[3] == b[0]);
            assert(b[2] == a[1] && a[2] == b[1]);
            assert(b[1] == a[2] && a[1] == b[2]);
            assert(b[0] == a[3] && a[0] == b[3]);
        },
        (Colour::I, Transform::ReflRot270) => {
            assert(a =~= seq![Point { x: 3, y: 0 }, Point { x: 2, y: 0 }, Point { x: 1, y: 0 }, Point { x: 0, y: 0 }]);
            assert(b =~= seq![Point { x: 0, y: 0 }, Point { x: 1, y: 0 }, Point { x: 2, y: 0 }, Point { x: 3, y: 0 }]);
            assert(b[3] == a[0] && a[3] == b[0]);
            assert(b[2] == a[1] && a[2] == b[1]);
            assert(b[1] == a[2] && a[1] == b[2]);
            assert(b[0] == a[3] && a[0] == b[3]);
        },
        (Colour::T, Transform::Identity) => {
            assert(a =~= seq![Point { x: 0, y: 0 }, Point { x: 1, y: 1 }, Point { x: 1, y: 0 }, Point { x: 2, y: 0 }]);
            assert(b =~= seq![Point { x: 0, y: 0 }, Point { x: 1, y: 1 }, Point { x: 1, y: 0 }, Point { x: 2, y: 0 }]);
            assert(b[0] == a[0] && a[0] == b[0]);
            assert(b[1] == a[1] && a[1] == b[1]);
            assert(b[2] == a[2] && a[2] == b[2]);
            assert(b[3] == a[3] && a[3] == b[3]);
        },
        (Colour::T, Transform::IdenRot90) => {
            assert(a =~= seq![Point { x: 0, y: 2 }, Point { x: 1, y: 1 }, Point { x: 0, y: 1 }, Point { x: 0, y: 0 }]);
            assert(b =~= seq![Point { x: 0, y: 2 }, Point { x: 1, y: 1 }, Point { x: 0, y: 1 }, Point { x: 0, y: 0 }]);
            assert(b[0] == a[0] && a[0] == b[0]);
            assert(b[1] == a[1] && a[1] == b[1]);
            assert(b[2] == a[2] && a[2] == b[2]);
            assert(b[3] == a[3] && a[3] == b[3]);
        },
        (Colour::T, Transform::IdenRot180) => {
            assert(a =~= seq![Point { x: 2, y: 1 }, Point { x: 1, y: 0 }, Point { x: 1, y: 1 }, Point { x: 0, y: 1 }]);
            assert(b =~= seq![Point { x: 2, y: 1 }, Point { x: 1, y: 0 }, Point { x: 1, y: 1 }, Point { x: 0, y: 1 }]);
            assert(b[0] == a[0] && a[0] == b[0]);
            assert(b[1] == a[1] && a[1] == b[1]);
            assert(b[2] == a[2] && a[2] == b[2]);
            assert(b[3] == a[3] && a[3] == b[3]);
        },
        (Colour::T, Transform::IdenRot270) => {
            assert(a =~= seq![Point { x: 1, y: 0 }, Point { x: 0, y: 1 }, Point { x: 1, y: 1 }, Point { x: 1, y: 2 }]);
            assert(b =~= seq![Point { x: 1, y: 0 }, Point { x: 0, y: 1 }, Point { x: 1, y: 1 }, Point { x: 1, y: 2 }]);
            assert(b[0] == a[0] && a[0] == b[0]);
            assert(b[1] == a[1] && a[1] == b[1]);
            assert(b[2] == a[2] && a[2] == b[2]);
            assert(b[3] == a[3] && a[3] == b[3]);
        },
        (Colour::T, Transform::Reflect) => {
            assert(a =~= seq![Point { x: 2, y: 0 }, Point { x: 1, y: 1 }, Point { x: 1, y: 0 }, Point { x: 0, y: 0 }]);
            assert(b =~= seq![Point { x: 0, y: 0 }, Point { x: 1, y: 1 }, Point { x: 1, y: 0 }, Point { x: 2, y: 0 }]);
            assert(b[3] == a[0] && a[3] == b[0]);
            assert(b[1] == a[1] && a[1] == b[1]);
            assert(b[2] == a[2] && a[2] == b[2]);
            assert(b[0] == a[3] && a[0] == b[3]);
        },
        (Colour::T, Transform::ReflRot90) => {
            assert(a =~= seq![Point { x: 0, y: 0 }, Point { x: 1, y: 1 }, Point { x: 0, y: 1 }, Point { x: 0, y: 2 }]);
            assert(b =~= seq![Point { x: 0, y: 2 }, Point { x: 1, y: 1 }, Point { x: 0, y: 1 }, Point { x: 0, y: 0 }]);
            assert(b[3] == a[0] && a[3] == b[0]);
            assert(b[1] == a[1] && a[1] == b[1]);
            assert(b[2] == a[2] && a[2] == b[2]);
            assert(b[0] == a[3] && a[0] == b[3]);
        },
        (Colour::T, Transform::ReflRot180) => {
            assert(a =~= seq![Point { x: 0, y: 1 }, Point { x: 1, y: 0 }, Point { x: 1, y: 1 }, Point { x: 2, y: 1 }]);
            assert(b =~= seq![Point { x: 2, y: 1 }, Point { x: 1, y: 0 }, Point { x: 1, y: 1 }, Point { x: 0, y: 1 }]);
            assert(b[3] == a[0] && a[3] == b[0]);
            assert(b[1] == a[1] && a[1] == b[1]);
            assert(b[2] == a[2] && a[2] == b[2]);
            assert(b[0] == a[3] && a[0] == b[3]);
        },
        (Colour::T, Transform::ReflRot270) => {
            assert(a =~= seq![Point { x: 1, y: 2 }, Point { x: 0, y: 1 }, Point { x: 1, y: 1 }, Point { x: 1, y: 0 }]);
            assert(b =~= seq![Point { x: 1, y: 0 }, Point { x: 0, y: 1 }, Point { x: 1, y: 1 }, Point { x: 1, y: 2 }]);
            assert(b[3] == a[0] && a[3] == b[0]);
            assert(b[1] == a[1] && a[1] == b[1]);
            assert(b[2] == a[2] && a[2] == b[2]);
            assert(b[0] == a[3] && a[0] == b[3]);
        },
        (Colour::S, Transform::Identity) => {
            assert(a =~= seq![Point { x: 0, y: 1 }, Point { x: 1, y: 1 }, Point { x: 1, y: 0 }, Point { x: 2, y: 0 }]);
            assert(b =~= seq![Point { x: 0, y: 1 }, Point { x: 1, y: 1 }, Point { x: 1, y: 0 }, Point { x: 2, y: 0 }]);
            assert(b[0] == a[0] && a[0] == b[0]);
            assert(b[1] == a[1] && a[1] == b[1]);
            assert(b[2] == a[2] && a[2] == b[2]);
            assert(b[3] == a[3] && a[3] == b[3]);
        },
        (Colour::S, Transform::IdenRot90) => {
            assert(a =~= seq![Point { x: 1, y: 2 }, Point { x: 1, y: 1 }, Point { x: 0, y: 1 }, Point { x: 0, y: 0 }]);
            assert(b =~= seq![Point { x: 1, y: 2 }, Point { x: 1, y: 1 }, Point { x: 0, y: 1 }, Point { x: 0, y: 0 }]);
            assert(b[0] == a[0] && a[0] == b[0]);
            assert(b[1] == a[1] && a[1] == b[1]);
            assert(b[2] == a[2] && a[2] == b[2]);
            assert(b[3] == a[3] && a[3] == b[3]);
        },
        (Colour::S, Transform::IdenRot180) => {
            assert(a =~= seq![Point { x: 2, y: 0 }, Point { x: 1, y: 0 }, Point { x: 1, y: 1 }, Point { x: 0, y: 1 }]);
            assert(b =~= seq![Point { x: 0, y: 1 }, Point { x: 1, y: 1 }, Point { x: 1, y: 0 }, Point { x: 2, y: 0 }]);
            assert(b[3] == a[0] && a[3] == b[0]);
            assert(b[2] == a[1] && a[2] == b[1]);
            assert(b[1] == a[2] && a[1] == b[2]);
            assert(b[0] == a[3] && a[0] == b[3]);
        },
        (Colour::S, Transform::IdenRot270) => {
            assert(a =~= seq![Point { x: 0, y: 0 }, Point { x: 0, y: 1 }, Point { x: 1, y: 1 }, Point { x: 1, y: 2 }]);
            assert(b =~= seq![Point { x: 1, y: 2 }, Point { x: 1, y: 1 }, Point { x: 0, y: 1 }, Point { x: 0, y: 0 }]);
            assert(b[3] == a[0] && a[3] == b[0]);
            assert(b[2] == a[1] && a[2] == b[1]);
            assert(b[1] == a[2] && a[1] == b[2]);
            assert(b[0] == a[3] && a[0] == b[3]);
        },
        (Colour::S, Transform::Reflect) => {
            assert(a =~= seq![Point { x: 2, y: 1 }, Point { x: 1, y: 1 }, Point { x: 1, y: 0 }, Point { x: 0, y: 0 }]);
            assert(b =~= seq![Point { x: 2, y: 1 }, Point { x: 1, y: 1 }, Point { x: 1, y: 0 }, Point { x: 0, y: 0 }]);
            assert(b[0] == a[0] && a[0] == b[0]);
            assert(b[1] == a[1] && a[1] == b[1]);
            assert(b[2] == a[2] && a[2] == b[2]);
            assert(b[3] == a[3] && a[3] == b[3]);
        },
        (Colour::S, Transform::ReflRot90) => {
            assert(a =~= seq![Point { x: 1, y: 0 }, Point { x: 1, y: 1 }, Point { x: 0, y: 1 }, Point { x: 0, y: 2 }]);
            assert(b =~= seq![Point { x: 1, y: 0 }, Point { x: 1, y: 1 }, Point { x: 0, y: 1 }, Point { x: 0, y: 2 }]);
            assert(b[0] == a[0] && a[0] == b[0]);
            assert(b[1] == a[1] && a[1] == b[1]);
            assert(b[2] == a[2] && a[2] == b[2]);
            assert(b[3] == a[3] && a[3] == b[3]);
        },
        (Colour::S, Transform::ReflRot180) => {
            assert(a =~= seq![Point { x: 0, y: 0 }, Point { x: 1, y: 0 }, Point { x: 1, y: 1 }, Point { x: 2, y: 1 }]);
            assert(b =~= seq![Point { x: 2, y: 1 }, Point { x: 1, y: 1 }, Point { x: 1, y: 0 }, Point { x: 0, y: 0 }]);
            assert(b[3] == a[0] && a[3] == b[0]);
            assert(b[2] == a[1] && a[2] == b[1]);
            assert(b[1] == a[2] && a[1] == b[2]);
            assert(b[0] == a[3] && a[0] == b[3]);
        },
        (Colour::S, Transform::ReflRot270) => {
            assert(a =~= seq![Point { x: 0, y: 2 }, Point { x: 0, y: 1 }, Point { x: 1, y: 1 }, Point { x: 1, y: 0 }]);
            assert(b =~= seq![Point { x: 1, y: 0 }, Point { x: 1, y: 1 }, Point { x: 0, y: 1 }, Point { x: 0, y: 2 }]);
            assert(b[3] == a[0] && a[3] == b[0]);
            assert(b[2] == a[1] && a[2] == b[1]);
            assert(b[1] == a[2] && a[1] == b[2]);
            assert(b[0] == a[3] && a[0] == b[3]);
        },
        _ => {},
    }
    assert forall|i: int| 0 <= i < 4 implies b.contains(#[trigger] a[i]) by {
        assert(b[0] == a[i] || b[1] == a[i] || b[2] == a[i] || b[3] == a[i]);
    }
    assert forall|i: int| 0 <= i < 4 implies a.contains(#[trigger] b[i]) by {
        assert(a[0] == b[i] || a[1] == b[i] || a[2] == b[i] || a[3] == b[i]);
    }
}

/// Distinct canonical transforms of a colour give distinct shapes: some point
/// of the one is not a point of the other.
#[verifier::rlimit(100)]
pub proof fn lemma_canonical_shapes_distinct(colour: Colour, t1: Transform, t2: Transform)
    requires
        colour.is_piece(),
        t1.is_canonical(colour),
        t2.is_canonical(colour),
        t1 != t2,
    ensures
        exists|i: int| 0 <= i < 4 && !shape(colour, t2).contains(#[trigger] shape(colour, t1)[i]),
{
    let ra = transformed(reference_points(colour), t1.spec_canonicalize(colour));
    let rb = transformed(reference_points(colour), t2.spec_canonicalize(colour));
    assert(ra.len() == 4 && rb.len() == 4);
    lemma_min4(ra);
    lemma_min4(rb);
    let a = shape(colour, t1);
    let b = shape(colour, t2);
    match (colour, t1, t2) {
        (Colour::L, Transform::Identity, Transform::IdenRot90) => {
            assert(a =~= seq![Point { x: 0, y: 0 }, Point { x: 0, y: 1 }, Point { x: 0, y: 2 }, Point { x: 1, y: 2 }]);
            assert(b =~= seq![Point { x: 0, y: 1 }, Point { x: 1, y: 1 }, Point { x: 2, y: 1 }, Point { x: 2, y: 0 }]);
            assert(!b.contains(a[0])) by {
                assert(b[0] != a[0] && b[1] != a[0] && b[2] != a[0] && b[3] != a[0]);
            }
        },
        (Colour::L, Transform::Identity, Transform::IdenRot180) => {
            assert(a =~= seq![Point { x: 0, y: 0 }, Point { x: 0, y: 1 }, Point { x: 0, y: 2 }, Point { x: 1, y: 2 }]);
            assert(b =~= seq![Point { x: 1, y: 2 }, Point { x: 1, y: 1 }, Point { x: 1, y: 0 }, Point { x: 0, y: 0 }]);
            assert(!b.contains(a[1])) by {
                assert(b[0] != a[1] && b[1] != a[1] && b[2] != a[1] && b[3] != a[1]);
            }
        },
        (Colour::L, Transform::Identity, Transform::IdenRot270) => {
            assert(a =~= seq![Point { x: 0, y: 0 }, Point { x: 0, y: 1 }, Point { x: 0, y: 2 }, Point { x: 1, y: 2 }]);
            assert(b =~= seq![Point { x: 2, y: 0 }, Point { x: 1, y: 0 }, Point { x: 0, y: 0 }, Point { x: 0, y: 1 }]);
            assert(!b.contains(a[2])) by {
                assert(b[0] != a[2] && b[1] != a[2] && b[2] != a[2] && b[3] != a[2]);
            }
        },
        (Colour::L, Transform::Identity, Transform::Reflect) => {
            assert(a =~= seq![Point { x: 0, y: 0 }, Point { x: 0, y: 1 }, Point { x: 0, y: 2 }, Point { x: 1, y: 2 }]);
            assert(b =~= seq![Point { x: 1, y: 0 }, Point { x: 1, y: 1 }, Point { x: 1, y: 2 }, Point { x: 0, y: 2 }]);
            assert(!b.contains(a[0])) by {
                assert(b[0] != a[0] && b[1] != a[0] && b[2] != a[0] && b[3] != a[0]);
            }
        },
        (Colour::L, Transform::Identity, Transform::ReflRot90) => {
            assert(a =~= seq![Point { x: 0, y: 0 }, Point { x: 0, y: 1 }, Point { x: 0, y: 2 }, Point { x: 1, y: 2 }]);
            assert(b =~= seq![Point { x: 0, y: 0 }, Point { x: 1, y: 0 }, Point { x: 2, y: 0 }, Point { x: 2, y: 1 }]);
            assert(!b.contains(a[1])) by {
                assert(b[0] != a[1] && b[1] != a[1] && b[2] != a[1] && b[3] != a[1]);
            }
        },
        (Colour::L, Transform::Identity, Transform::ReflRot180) => {
            assert(a =~= seq![Point { x: 0, y: 0 }, Point { x: 0, y: 1 }, Point { x: 0, y: 2 }, Point { x: 1, y: 2 }]);
            assert(b =~= seq![Point { x: 0, y: 2 }, Point { x: 0, y: 1 }, Point { x: 0, y: 0 }, Point { x: 1, y: 0 }]);
            assert(!b.contains(a[3])) by {
                assert(b[0] != a[3] && b[1] != a[3] && b[2] != a[3] && b[3] != a[3]);
            }
        },
        (Colour::L, Transform::Identity, Transform::ReflRot270) => {
            assert(a =~= seq![Point { x: 0, y: 0 }, Point { x: 0, y: 1 }, Point { x: 0, y: 2 }, Point { x: 1, y: 2 }]);
            assert(b =~= seq![Point { x: 2, y: 1 }, Point { x: 1, y: 1 }, Point { x: 0, y: 1 }, Point { x: 0, y: 0 }]);
            assert(!b.contains(a[2])) by {
                assert(b[0] != a[2] && b[1] != a[2] && b[2] != a[2] && b[3] != a[2]);
            }
        },
        (Colour::L, Transform::IdenRot90, Transform::Identity) => {
            assert(a =~= seq![Point { x: 0, y: 1 }, Point { x: 1, y: 1 }, Point { x: 2, y: 1 }, Point { x: 2, y: 0 }]);
            assert(b =~= seq![Point { x: 0, y: 0 }, Point { x: 0, y: 1 }, Point { x: 0, y: 2 }, Point { x: 1, y: 2 }]);
            assert(!b.contains(a[1])) by {
                assert(b[0] != a[1] && b[1] != a[1] && b[2] != a[1] && b[3] != a[1]);
            }
        },
        (Colour::L, Transform::IdenRot90, Transform::IdenRot180) => {
            assert(a =~= seq![Point { x: 0, y: 1 }, Point { x: 1, y: 1 }, Point { x: 2, y: 1 }, Point { x: 2, y: 0 }]);
            assert(b =~= seq![Point { x: 1, y: 2 }, Point { x: 1, y: 1 }, Point { x: 1, y: 0 }, Point { x: 0, y: 0 }]);
            assert(!b.contains(a[0])) by {
                assert(b[0] != a[0] && b[1] != a[0] && b[2] != a[0] && b[3] != a[0]);
            }
        },
        (Colour::L, Transform::IdenRot90, Transform::IdenRot270) => {
            assert(a =~= seq![Point { x: 0, y: 1 }, Point { x: 1, y: 1 }, Point { x: 2, y: 1 }, Point { x: 2, y: 0 }]);
            assert(b =~= seq![Point { x: 2, y: 0 }, Point { x: 1, y: 0 }, Point { x: 0, y: 0 }, Point { x: 0, y: 1 }]);
            assert(!b.contains(a[1])) by {
                assert(b[0] != a[1] && b[1] != a[1] && b[2] != a[1] && b[3] != a[1]);
            }
        },
        (Colour::L, Transform::IdenRot90, Transform::Reflect) => {
            assert(a =~= seq![Point { x: 0, y: 1 }, Point { x: 1, y: 1 }, Point { x: 2, y: 1 }, Point { x: 2, y: 0 }]);
            assert(b =~= seq![Point { x: 1, y: 0 }, Point { x: 1, y: 1 }, Point { x: 1, y: 2 }, Point { x: 0, y: 2 }]);
            assert(!b.contains(a[0])) by {
                assert(b[0] != a[0] && b[1] != a[0] && b[2] != a[0] && b[3] != a[0]);
            }
        },
        (Colour::L, Transform::IdenRot90, Transform::ReflRot90) => {
            assert(a =~= seq![Point { x: 0, y: 1 }, Point { x: 1, y: 1 }, Point { x: 2, y: 1 }, Point { x: 2, y: 0 }]);
            assert(b =~= seq![Point { x: 0, y: 0 }, Point { x: 1, y: 0 }, Point { x: 2, y: 0 }, Point { x: 2, y: 1 }]);
            assert(!b.contains(a[0])) by {
                assert(b[0] != a[0] && b[1] != a[0] && b[2] != a[0] && b[3] != a[0]);
            }
        },
        (Colour::L, Transform::IdenRot90, Transform::ReflRot180) => {
            assert(a =~= seq![Point { x: 0, y: 1 }, Point { x: 1, y: 1 }, Point { x: 2, y: 1 }, Point { x: 2, y: 0 }]);
            assert(b =~= seq![Point { x: 0, y: 2 }, Point { x: 0, y: 1 }, Point { x: 0, y: 0 }, Point { x: 1, y: 0 }]);
            assert(!b.contains(a[1])) by {
                assert(b[0] != a[1] && b[1] != a[1] && b[2] != a[1] && b[3] != a[1]);
            }
        },
        (Colour::L, Transform::IdenRot90, Transform::ReflRot270) => {
            assert(a =~= seq![Point { x: 0, y: 1 }, Point { x: 1, y: 1 }, Point { x: 2, y: 1 }, Point { x: 2, y: 0 }]);
            assert(b =~= seq![Point { x: 2, y: 1 }, Point { x: 1, y: 1 }, Point { x: 0, y: 1 }, Point { x: 0, y: 0 }]);
            assert(!b.contains(a[3])) by {
                assert(b[0] != a[3] && b[1] != a[3] && b[2] != a[3] && b[3] != a[3]);
            }
        },
        (Colour::L, Transform::IdenRot180, Transform::Identity) => {
            assert(a =~= seq![Point { x: 1, y: 2 }, Point { x: 1, y: 1 }, Point { x: 1, y: 0 }, Point { x: 0, y: 0 }]);
            assert(b =~= seq![Point { x: 0, y: 0 }, Point { x: 0, y: 1 }, Point { x: 0, y: 2 }, Point { x: 1, y: 2 }]);
            assert(!b.contains(a[1])) by {
                assert(b[0] != a[1] && b[1] != a[1] && b[2] != a[1] && b[3] != a[1]);
            }
        },
        (Colour::L, Transform::IdenRot180, Transform::IdenRot90) => {
            assert(a =~= seq![Point { x: 1, y: 2 }, Point { x: 1, y: 1 }, Point { x: 1, y: 0 }, Point { x: 0, y: 0 }]);
            assert(b =~= seq![Point { x: 0, y: 1 }, Point { x: 1, y: 1 }, Point { x: 2, y: 1 }, Point { x: 2, y: 0 }]);
            assert(!b.contains(a[0])) by {
                assert(b[0] != a[0] && b[1] != a[0] && b[2] != a[0] && b[3] != a[0]);
            }
        },
        (Colour::L, Transform::IdenRot180, Transform::IdenRot270) => {
            assert(a =~= seq![Point { x: 1, y: 2 }, Point { x: 1, y: 1 }, Point { x: 1, y: 0 }, Point { x: 0, y: 0 }]);
            assert(b =~= seq![Point { x: 2, y: 0 }, Point { x: 1, y: 0 }, Point { x: 0, y: 0 }, Point { x: 0, y: 1 }]);
            assert(!b.contains(a[0])) by {
                assert(b[0] != a[0] && b[1] != a[0] && b[2] != a[0] && b[3] != a[0]);
            }
        },
        (Colour::L, Transform::IdenRot180, Transform::Reflect) => {
            assert(a =~= seq![Point { x: 1, y: 2 }, Point { x: 1, y: 1 }, Point { x: 1, y: 0 }, Point { x: 0, y: 0 }]);
            assert(b =~= seq![Point { x: 1, y: 0 }, Point { x: 1, y: 1 }, Point { x: 1, y: 2 }, Point { x: 0, y: 2 }]);
            assert(!b.contains(a[3])) by {
                assert(b[0] != a[3] && b[1] != a[3] && b[2] != a[3] && b[3] != a[3]);
            }
        },
        (Colour::L, Transform::IdenRot180, Transform::ReflRot90) => {
            assert(a =~= seq![Point { x: 1, y: 2 }, Point { x: 1, y: 1 }, Point { x: 1, y: 0 }, Point { x: 0, y: 0 }]);
            assert(b =~= seq![Point { x: 0, y: 0 }, Point { x: 1, y: 0 }, Point { x: 2, y: 0 }, Point { x: 2, y: 1 }]);
            assert(!b.contains(a[0])) by {
                assert(b[0] != a[0] && b[1] != a[0] && b[2] != a[0] && b[3] != a[0]);
            }
        },
        (Colour::L, Transform::IdenRot180, Transform::ReflRot180) => {
            assert(a =~= seq![Point { x: 1, y: 2 }, Point { x: 1, y: 1 }, Point { x: 1, y: 0 }, Point { x: 0, y: 0 }]);
            assert(b =~= seq![Point { x: 0, y: 2 }, Point { x: 0, y: 1 }, Point { x: 0, y: 0 }, Point { x: 1, y: 0 }]);
            assert(!b.contains(a[0])) by {
                assert(b[0] != a[0] && b[1] != a[0] && b[2] != a[0] && b[3] != a[0]);
            }
        },
        (Colour::L, Transform::IdenRot180, Transform::ReflRot270) => {
            assert(a =~= seq![Point { x: 1, y: 2 }, Point { x: 1, y: 1 }, Point { x: 1, y: 0 }, Point { x: 0, y: 0 }]);
            assert(b =~= seq![Point { x: 2, y: 1 }, Point { x: 1, y: 1 }, Point { x: 0, y: 1 }, Point { x: 0, y: 0 }]);
            assert(!b.contains(a[0])) by {
                assert(b[0] != a[0] && b[1] != a[0] && b[2] != a[0] && b[3] != a[0]);
            }
        },
        (Colour::L, Transform::IdenRot270, Transform::Identity) => {
            assert(a =~= seq![Point { x: 2, y: 0 }, Point { x: 1, y: 0 }, Point { x: 0, y: 0 }, Point { x: 0, y: 1 }]);
            assert(b =~= seq![Point { x: 0, y: 0 }, Point { x: 0, y: 1 }, Point { x: 0, y: 2 }, Point { x: 1, y: 2 }]);
            assert(!b.contains(a[0])) by {
                assert(b[0] != a[0] && b[1] != a[0] && b[2] != a[0] && b[3] != a[0]);
            }
        },
        (Colour::L, Transform::IdenRot270, Transform::IdenRot90) => {
            assert(a =~= seq![Point { x: 2, y: 0 }, Point { x: 1, y: 0 }, Point { x: 0, y: 0 }, Point { x: 0, y: 1 }]);
            assert(b =~= seq![Point { x: 0, y: 1 }, Point { x: 1, y: 1 }, Point { x: 2, y: 1 }, Point { x: 2, y: 0 }]);
            assert(!b.contains(a[1])) by {
                assert(b[0] != a[1] && b[1] != a[1] && b[2] != a[1] && b[3] != a[1]);
            }
        },
        (Colour::L, Transform::IdenRot270, Transform::IdenRot180) => {
            assert(a =~= seq![Point { x: 2, y: 0 }, Point { x: 1, y: 0 }, Point { x: 0, y: 0 }, Point { x: 0, y: 1 }]);
            assert(b =~= seq![Point { x: 1, y: 2 }, Point { x: 1, y: 1 }, Point { x: 1, y: 0 }, Point { x: 0, y: 0 }]);
            assert(!b.contains(a[0])) by {
                assert(b[0] != a[0] && b[1] != a[0] && b[2] != a[0] && b[3] != a[0]);
            }
        },
        (Colour::L, Transform::IdenRot270, Transform::Reflect) => {
            assert(a =~= seq![Point { x: 2, y: 0 }, Point { x: 1, y: 0 }, Point { x: 0, y: 0 }, Point { x: 0, y: 1 }]);
            assert(b =~= seq![Point { x: 1, y: 0 }, Point { x: 1, y: 1 }, Point { x: 1, y: 2 }, Point { x: 0, y: 2 }]);
            assert(!b.contains(a[0])) by {
                assert(b[0] != a[0] && b[1] != a[0] && b[2] != a[0] && b[3] != a[0]);
            }
        },
        (Colour::L, Transform::IdenRot270, Transform::ReflRot90) => {
            assert(a =~= seq![Point { x: 2, y: 0 }, Point { x: 1, y: 0 }, Point { x: 0, y: 0 }, Point { x: 0, y: 1 }]);
            assert(b =~= seq![Point { x: 0, y: 0 }, Point { x: 1, y: 0 }, Point { x: 2, y: 0 }, Point { x: 2, y: 1 }]);
            assert(!b.contains(a[3])) by {
                assert(b[0] != a[3] && b[1] != a[3] && b[2] != a[3] && b[3] != a[3]);
            }
        },
        (Colour::L, Transform::IdenRot270, Transform::ReflRot180) => {
            assert(a =~= seq![Point { x: 2, y: 0 }, Point { x: 1, y: 0 }, Point { x: 0, y: 0 }, Point { x: 0, y: 1 }]);
            assert(b =~= seq![Point { x: 0, y: 2 }, Point { x: 0, y: 1 }, Point { x: 0, y: 0 }, Point { x: 1, y: 0 }]);
            assert(!b.contains(a[0])) by {
                assert(b[0] != a[0] && b[1] != a[0] && b[2] != a[0] && b[3] != a[0]);
            }
        },
        (Colour::L, Transform::IdenRot270, Transform::ReflRot270) => {
            assert(a =~= seq![Point { x: 2, y: 0 }, Point { x: 1, y: 0 }, Point { x: 0, y: 0 }, Point { x: 0, y: 1 }]);
            assert(b =~= seq![Point { x: 2, y: 1 }, Point { x: 1, y: 1 }, Point { x: 0, y: 1 }, Point { x: 0, y: 0 }]);
            assert(!b.contains(a[0])) by {
                assert(b[0] != a[0] && b[1] != a[0] && b[2] != a[0] && b[3] != a[0]);
            }
        },
        (Colour::L, Transform::Reflect, Transform::Identity) => {
            assert(a =~= seq![Point { x: 1, y: 0 }, Point { x: 1, y: 1 }, Point { x: 1, y: 2 }, Point { x: 0, y: 2 }]);
            assert(b =~= seq![Point { x: 0, y: 0 }, Point { x: 0, y: 1 }, Point { x: 0, y: 2 }, Point { x: 1, y: 2 }]);
            assert(!b.contains(a[0])) by {
                assert(b[0] != a[0] && b[1] != a[0] && b[2] != a[0] && b[3] != a[0]);
            }
        },
        (Colour::L, Transform::Reflect, Transform::IdenRot90) => {
            assert(a =~= seq![Point { x: 1, y: 0 }, Point { x: 1, y: 1 }, Point { x: 1, y: 2 }, Point { x: 0, y: 2 }]);
            assert(b =~= seq![Point { x: 0, y: 1 }, Point { x: 1, y: 1 }, Point { x: 2, y: 1 }, Point { x: 2, y: 0 }]);
            assert(!b.contains(a[0])) by {
                assert(b[0] != a[0] && b[1] != a[0] && b[2] != a[0] && b[3] != a[0]);
            }
        },
        (Colour::L, Transform::Reflect, Transform::IdenRot180) => {
            assert(a =~= seq![Point { x: 1, y: 0 }, Point { x: 1, y: 1 }, Point { x: 1, y: 2 }, Point { x: 0, y: 2 }]);
            assert(b =~= seq![Point { x: 1, y: 2 }, Point { x: 1, y: 1 }, Point { x: 1, y: 0 }, Point { x: 0, y: 0 }]);
            assert(!b.contains(a[3])) by {
                assert(b[0] != a[3] && b[1] != a[3] && b[2] != a[3] && b[3] != a[3]);
            }
        },
        (Colour::L, Transform::Reflect, Transform::IdenRot270) => {
            assert(a =~= seq![Point { x: 1, y: 0 }, Point { x: 1, y: 1 }, Point { x: 1, y: 2 }, Point { x: 0, y: 2 }]);
            assert(b =~= seq![Point { x: 2, y: 0 }, Point { x: 1, y: 0 }, Point { x: 0, y: 0 }, Point { x: 0, y: 1 }]);
            assert(!b.contains(a[1])) by {
                assert(b[0] != a[1] && b[1] != a[1] && b[2] != a[1] && b[3] != a[1]);
            }
        },
        (Colour::L, Transform::Reflect, Transform::ReflRot90) => {
            assert(a =~= seq![Point { x: 1, y: 0 }, Point { x: 1, y: 1 }, Point { x: 1, y: 2 }, Point { x: 0, y: 2 }]);
            assert(b =~= seq![Point { x: 0, y: 0 }, Point { x: 1, y: 0 }, Point { x: 2, y: 0 }, Point { x: 2, y: 1 }]);
            assert(!b.contains(a[1])) by {
                assert(b[0] != a[1] && b[1] != a[1] && b[2] != a[1] && b[3] != a[1]);
            }
        },
        (Colour::L, Transform::Reflect, Transform::ReflRot180) => {
            assert(a =~= seq![Point { x: 1, y: 0 }, Point { x: 1, y: 1 }, Point { x: 1, y: 2 }, Point { x: 0, y: 2 }]);
            assert(b =~= seq![Point { x: 0, y: 2 }, Point { x: 0, y: 1 }, Point { x: 0, y: 0 }, Point { x: 1, y: 0 }]);
            assert(!b.contains(a[1])) by {
                assert(b[0] != a[1] && b[1] != a[1] && b[2] != a[1] && b[3] != a[1]);
            }
        },
        (Colour::L, Transform::Reflect, Transform::ReflRot270) => {
            assert(a =~= seq![Point { x: 1, y: 0 }, Point { x: 1, y: 1 }, Point { x: 1, y: 2 }, Point { x: 0, y: 2 }]);
            assert(b =~= seq![Point { x: 2, y: 1 }, Point { x: 1, y: 1 }, Point { x: 0, y: 1 }, Point { x: 0, y: 0 }]);
            assert(!b.contains(a[0])) by {
                assert(b[0] != a[0] && b[1] != a[0] && b[2] != a[0] && b[3] != a[0]);
            }
        },
        (Colour::L, Transform::ReflRot90, Transform::Identity) => {
            assert(a =~= seq![Point { x: 0, y: 0 }, Point { x: 1, y: 0 }, Point { x: 2, y: 0 }, Point { x: 2, y: 1 }]);
            assert(b =~= seq![Point { x: 0, y: 0 }, Point { x: 0, y: 1 }, Point { x: 0, y: 2 }, Point { x: 1, y: 2 }]);
            assert(!b.contains(a[1])) by {
                assert(b[0] != a[1] && b[1] != a[1] && b[2] != a[1] && b[3] != a[1]);
            }
        },
        (Colour::L, Transform::ReflRot90, Transform::IdenRot90) => {
            assert(a =~= seq![Point { x: 0, y: 0 }, Point { x: 1, y: 0 }, Point { x: 2, y: 0 }, Point { x: 2, y: 1 }]);
            assert(b =~= seq![Point { x: 0, y: 1 }, Point { x: 1, y: 1 }, Point { x: 2, y: 1 }, Point { x: 2, y: 0 }]);
            assert(!b.contains(a[0])) by {
                assert(b[0] != a[0] && b[1] != a[0] && b[2] != a[0] && b[3] != a[0]);
            }
        },
        (Colour::L, Transform::ReflRot90, Transform::IdenRot180) => {
            assert(a =~= seq![Point { x: 0, y: 0 }, Point { x: 1, y: 0 }, Point { x: 2, y: 0 }, Point { x: 2, y: 1 }]);
            assert(b =~= seq![Point { x: 1, y: 2 }, Point { x: 1, y: 1 }, Point { x: 1, y: 0 }, Point { x: 0, y: 0 }]);
            assert(!b.contains(a[2])) by {
                assert(b[0] != a[2] && b[1] != a[2] && b[2] != a[2] && b[3] != a[2]);
            }
        },
        (Colour::L, Transform::ReflRot90, Transform::IdenRot270) => {
            assert(a =~= seq![Point { x: 0, y: 0 }, Point { x: 1, y: 0 }, Point { x: 2, y: 0 }, Point { x: 2, y: 1 }]);
            assert(b =~= seq![Point { x: 2, y: 0 }, Point { x: 1, y: 0 }, Point { x: 0, y: 0 }, Point { x: 0, y: 1 }]);
            assert(!b.contains(a[3])) by {
                assert(b[0] != a[3] && b[1] != a[3] && b[2] != a[3] && b[3] != a[3]);
            }
        },
        (Colour::L, Transform::ReflRot90, Transform::Reflect) => {
            assert(a =~= seq![Point { x: 0, y: 0 }, Point { x: 1, y: 0 }, Point { x: 2, y: 0 }, Point { x: 2, y: 1 }]);
            assert(b =~= seq![Point { x: 1, y: 0 }, Point { x: 1, y: 1 }, Point { x: 1, y: 2 }, Point { x: 0, y: 2 }]);
            assert(!b.contains(a[0])) by {
                assert(b[0] != a[0] && b[1] != a[0] && b[2] != a[0] && b[3] != a[0]);
            }
        },
        (Colour::L, Transform::ReflRot90, Transform::ReflRot180) => {
            assert(a =~= seq![Point { x: 0, y: 0 }, Point { x: 1, y: 0 }, Point { x: 2, y: 0 }, Point { x: 2, y: 1 }]);
            assert(b =~= seq![Point { x: 0, y: 2 }, Point { x: 0, y: 1 }, Point { x: 0, y: 0 }, Point { x: 1, y: 0 }]);
            assert(!b.contains(a[2])) by {
                assert(b[0] != a[2] && b[1] != a[2] && b[2] != a[2] && b[3] != a[2]);
            }
        },
        (Colour::L, Transform::ReflRot90, Transform::ReflRot270) => {
            assert(a =~= seq![Point { x: 0, y: 0 }, Point { x: 1, y: 0 }, Point { x: 2, y: 0 }, Point { x: 2, y: 1 }]);
            assert(b =~= seq![Point { x: 2, y: 1 }, Point { x: 1, y: 1 }, Point { x: 0, y: 1 }, Point { x: 0, y: 0 }]);
            assert(!b.contains(a[1])) by {
                assert(b[0] != a[1] && b[1] != a[1] && b[2] != a[1] && b[3] != a[1]);
            }
        },
        (Colour::L, Transform::ReflRot180, Transform::Identity) => {
            assert(a =~= seq![Point { x: 0, y: 2 }, Point { x: 0, y: 1 }, Point { x: 0, y: 0 }, Point { x: 1, y: 0 }]);
            assert(b =~= seq![Point { x: 0, y: 0 }, Point { x: 0, y: 1 }, Point { x: 0, y: 2 }, Point { x: 1, y: 2 }]);
            assert(!b.contains(a[3])) by {
                assert(b[0] != a[3] && b[1] != a[3] && b[2] != a[3] && b[3] != a[3]);
            }
        },
        (Colour::L, Transform::ReflRot180, Transform::IdenRot90) => {
            assert(a =~= seq![Point { x: 0, y: 2 }, Point { x: 0, y: 1 }, Point { x: 0, y: 0 }, Point { x: 1, y: 0 }]);
            assert(b =~= seq![Point { x: 0, y: 1 }, Point { x: 1, y: 1 }, Point { x: 2, y: 1 }, Point { x: 2, y: 0 }]);
            assert(!b.contains(a[0])) by {
                assert(b[0] != a[0] && b[1] != a[0] && b[2] != a[0] && b[3] != a[0]);
            }
        },
        (Colour::L, Transform::ReflRot180, Transform::IdenRot180) => {
            assert(a =~= seq![Point { x: 0, y: 2 }, Point { x: 0, y: 1 }, Point { x: 0, y: 0 }, Point { x: 1, y: 0 }]);
            assert(b =~= seq![Point { x: 1, y: 2 }, Point { x: 1, y: 1 }, Point { x: 1, y: 0 }, Point { x: 0, y: 0 }]);
            assert(!b.contains(a[0])) by {
                assert(b[0] != a[0] && b[1] != a[0] && b[2] != a[0] && b[3] != a[0]);
            }
        },
        (Colour::L, Transform::ReflRot180, Transform::IdenRot270) => {
            assert(a =~= seq![Point { x: 0, y: 2 }, Point { x: 0, y: 1 }, Point { x: 0, y: 0 }, Point { x: 1, y: 0 }]);
            assert(b =~= seq![Point { x: 2, y: 0 }, Point { x: 1, y: 0 }, Point { x: 0, y: 0 }, Point { x: 0, y: 1 }]);
            assert(!b.contains(a[0])) by {
                assert(b[0] != a[0] && b[1] != a[0] && b[2] != a[0] && b[3] != a[0]);
            }
        },
        (Colour::L, Transform::ReflRot180, Transform::Reflect) => {
            assert(a =~= seq![Point { x: 0, y: 2 }, Point { x: 0, y: 1 }, Point { x: 0, y: 0 }, Point { x: 1, y: 0 }]);
            assert(b =~= seq![Point { x: 1, y: 0 }, Point { x: 1, y: 1 }, Point { x: 1, y: 2 }, Point { x: 0, y: 2 }]);
            assert(!b.contains(a[1])) by {
                assert(b[0] != a[1] && b[1] != a[1] && b[2] != a[1] && b[3] != a[1]);
            }
        },
        (Colour::L, Transform::ReflRot180, Transform::ReflRot90) => {
            assert(a =~= seq![Point { x: 0, y: 2 }, Point { x: 0, y: 1 }, Point { x: 0, y: 0 }, Point { x: 1, y: 0 }]);
            assert(b =~= seq![Point { x: 0, y: 0 }, Point { x: 1, y: 0 }, Point { x: 2, y: 0 }, Point { x: 2, y: 1 }]);
            assert(!b.contains(a[0])) by {
                assert(b[0] != a[0] && b[1] != a[0] && b[2] != a[0] && b[3] != a[0]);
            }
        },
        (Colour::L, Transform::ReflRot180, Transform::ReflRot270) => {
            assert(a =~= seq![Point { x: 0, y: 2 }, Point { x: 0, y: 1 }, Point { x: 0, y: 0 }, Point { x: 1, y: 0 }]);
            assert(b =~= seq![Point { x: 2, y: 1 }, Point { x: 1, y: 1 }, Point { x: 0, y: 1 }, Point { x: 0, y: 0 }]);
            assert(!b.contains(a[0])) by {
                assert(b[0] != a[0] && b[1] != a[0] && b[2] != a[0] && b[3] != a[0]);
            }
        },
        (Colour::L, Transform::ReflRot270, Transform::Identity) => {
            assert(a =~= seq![Point { x: 2, y: 1 }, Point { x: 1, y: 1 }, Point { x: 0, y: 1 }, Point { x: 0, y: 0 }]);
            assert(b =~= seq![Point { x: 0, y: 0 }, Point { x: 0, y: 1 }, Point { x: 0, y: 2 }, Point { x: 1, y: 2 }]);
            assert(!b.contains(a[0])) by {
                assert(b[0] != a[0] && b[1] != a[0] && b[2] != a[0] && b[3] != a[0]);
            }
        },
        (Colour::L, Transform::ReflRot270, Transform::IdenRot90) => {
            assert(a =~= seq![Point { x: 2, y: 1 }, Point { x: 1, y: 1 }, Point { x: 0, y: 1 }, Point { x: 0, y: 0 }]);
            assert(b =~= seq![Point { x: 0, y: 1 }, Point { x: 1, y: 1 }, Point { x: 2, y: 1 }, Point { x: 2, y: 0 }]);
            assert(!b.contains(a[3])) by {
                assert(b[0] != a[3] && b[1] != a[3] && b[2] != a[3] && b[3] != a[3]);
            }
        },
        (Colour::L, Transform::ReflRot270, Transform::IdenRot180) => {
            assert(a =~= seq![Point { x: 2, y: 1 }, Point { x: 1, y: 1 }, Point { x: 0, y: 1 }, Point { x: 0, y: 0 }]);
            assert(b =~= seq![Point { x: 1, y: 2 }, Point { x: 1, y: 1 }, Point { x: 1, y: 0 }, Point { x: 0, y: 0 }]);
            assert(!b.contains(a[0])) by {
                assert(b[0] != a[0] && b[1] != a[0] && b[2] != a[0] && b[3] != a[0]);
            }
        },
        (Colour::L, Transform::ReflRot270, Transform::IdenRot270) => {
            assert(a =~= seq![Point { x: 2, y: 1 }, Point { x: 1, y: 1 }, Point { x: 0, y: 1 }, Point { x: 0, y: 0 }]);
            assert(b =~= seq![Point { x: 2, y: 0 }, Point { x: 1, y: 0 }, Point { x: 0, y: 0 }, Point { x: 0, y: 1 }]);
            assert(!b.contains(a[0])) by {
                assert(b[0] != a[0] && b[1] != a[0] && b[2] != a[0] && b[3] != a[0]);
            }
        },
        (Colour::L, Transform::ReflRot270, Transform::Reflect) => {
            assert(a =~= seq![Point { x: 2, y: 1 }, Point { x: 1, y: 1 }, Point { x: 0, y: 1 }, Point { x: 0, y: 0 }]);
            assert(b =~= seq![Point { x: 1, y: 0 }, Point { x: 1, y: 1 }, Point { x: 1, y: 2 }, Point { x: 0, y: 2 }]);
            assert(!b.contains(a[0])) by {
                assert(b[0] != a[0] && b[1] != a[0] && b[2] != a[0] && b[3] != a[0]);
            }
        },
        (Colour::L, Transform::ReflRot270, Transform::ReflRot90) => {
            assert(a =~= seq![Point { x: 2, y: 1 }, Point { x: 1, y: 1 }, Point { x: 0, y: 1 }, Point { x: 0, y: 0 }]);
            assert(b =~= seq![Point { x: 0, y: 0 }, Point { x: 1, y: 0 }, Point { x: 2, y: 0 }, Point { x: 2, y: 1 }]);
            assert(!b.contains(a[1])) by {
                assert(b[0] != a[1] && b[1] != a[1] && b[2] != a[1] && b[3] != a[1]);
            }
        },
        (Colour::L, Transform::ReflRot270, Transform::ReflRot180) => {
            assert(a =~= seq![Point { x: 2, y: 1 }, Point { x: 1, y: 1 }, Point { x: 0, y: 1 }, Point { x: 0, y: 0 }]);
            assert(b =~= seq![Point { x: 0, y: 2 }, Point { x: 0, y: 1 }, Point { x: 0, y: 0 }, Point { x: 1, y: 0 }]);
            assert(!b.contains(a[0])) by {
                assert(b[0] != a[0] && b[1] != a[0] && b[2] != a[0] && b[3] != a[0]);
            }
        },
        (Colour::I, Transform::Identity, Transform::IdenRot90) => {
            assert(a =~= seq![Point { x: 0, y: 0 }, Point { x: 0, y: 1 }, Point { x: 0, y: 2 }, Point { x: 0, y: 3 }]);
            assert(b =~= seq![Point { x: 0, y: 0 }, Point { x: 1, y: 0 }, Point { x: 2, y: 0 }, Point { x: 3, y: 0 }]);
            assert(!b.contains(a[1])) by {
                assert(b[0] != a[1] && b[1] != a[1] && b[2] != a[1] && b[3] != a[1]);
            }
        },
        (Colour::I, Transform::IdenRot90, Transform::Identity) => {
            assert(a =~= seq![Point { x: 0, y: 0 }, Point { x: 1, y: 0 }, Point { x: 2, y: 0 }, Point { x: 3, y: 0 }]);
            assert(b =~= seq![Point { x: 0, y: 0 }, Point { x: 0, y: 1 }, Point { x: 0, y: 2 }, Point { x: 0, y: 3 }]);
            assert(!b.contains(a[1])) by {
                assert(b[0] != a[1] && b[1] != a[1] && b[2] != a[1] && b[3] != a[1]);
            }
        },
        (Colour::T, Transform::Identity, Transform::IdenRot90) => {
            assert(a =~= seq![Point { x: 0, y: 0 }, Point { x: 1, y: 1 }, Point { x: 1, y: 0 }, Point { x: 2, y: 0 }]);
            assert(b =~= seq![Point { x: 0, y: 2 }, Point { x: 1, y: 1 }, Point { x: 0, y: 1 }, Point { x: 0, y: 0 }]);
            assert(!b.contains(a[2])) by {
                assert(b[0] != a[2] && b[1] != a[2] && b[2] != a[2] && b[3] != a[2]);
            }
        },
        (Colour::T, Transform::Identity, Transform::IdenRot180) => {
            assert(a =~= seq![Point { x: 0, y: 0 }, Point { x: 1, y: 1 }, Point { x: 1, y: 0 }, Point { x: 2, y: 0 }]);
            assert(b =~= seq![Point { x: 2, y: 1 }, Point { x: 1, y: 0 }, Point { x: 1, y: 1 }, Point { x: 0, y: 1 }]);
            assert(!b.contains(a[0])) by {
                assert(b[0] != a[0] && b[1] != a[0] && b[2] != a[0] && b[3] != a[0]);
            }
        },
        (Colour::T, Transform::Identity, Transform::IdenRot270) => {
            assert(a =~= seq![Point { x: 0, y: 0 }, Point { x: 1, y: 1 }, Point { x: 1, y: 0 }, Point { x: 2, y: 0 }]);
            assert(b =~= seq![Point { x: 1, y: 0 }, Point { x: 0, y: 1 }, Point { x: 1, y: 1 }, Point { x: 1, y: 2 }]);
            assert(!b.contains(a[0])) by {
                assert(b[0] != a[0] && b[1] != a[0] && b[2] != a[0] && b[3] != a[0]);
            }
        },
        (Colour::T, Transform::IdenRot90, Transform::Identity) => {
            assert(a =~= seq![Point { x: 0, y: 2 }, Point { x: 1, y: 1 }, Point { x: 0, y: 1 }, Point { x: 0, y: 0 }]);
            assert(b =~= seq![Point { x: 0, y: 0 }, Point { x: 1, y: 1 }, Point { x: 1, y: 0 }, Point { x: 2, y: 0 }]);
            assert(!b.contains(a[0])) by {
                assert(b[0] != a[0] && b[1] != a[0] && b[2] != a[0] && b[3] != a[0]);
            }
        },
        (Colour::T, Transform::IdenRot90, Transform::IdenRot180) => {
            assert(a =~= seq![Point { x: 0, y: 2 }, Point { x: 1, y: 1 }, Point { x: 0, y: 1 }, Point { x: 0, y: 0 }]);
            assert(b =~= seq![Point { x: 2, y: 1 }, Point { x: 1, y: 0 }, Point { x: 1, y: 1 }, Point { x: 0, y: 1 }]);
            assert(!b.contains(a[0])) by {
                assert(b[0] != a[0] && b[1] != a[0] && b[2] != a[0] && b[3] != a[0]);
            }
        },
        (Colour::T, Transform::IdenRot90, Transform::IdenRot270) => {
            assert(a =~= seq![Point { x: 0, y: 2 }, Point { x: 1, y: 1 }, Point { x: 0, y: 1 }, Point { x: 0, y: 0 }]);
            assert(b =~= seq![Point { x: 1, y: 0 }, Point { x: 0, y: 1 }, Point { x: 1, y: 1 }, Point { x: 1, y: 2 }]);
            assert(!b.contains(a[0])) by {
                assert(b[0] != a[0] && b[1] != a[0] && b[2] != a[0] && b[3] != a[0]);
            }
        },
        (Colour::T, Transform::IdenRot180, Transform::Identity) => {
            assert(a =~= seq![Point { x: 2, y: 1 }, Point { x: 1, y: 0 }, Point { x: 1, y: 1 }, Point { x: 0, y: 1 }]);
            assert(b =~= seq![Point { x: 0, y: 0 }, Point { x: 1, y: 1 }, Point { x: 1, y: 0 }, Point { x: 2, y: 0 }]);
            assert(!b.contains(a[0])) by {
                assert(b[0] != a[0] && b[1] != a[0] && b[2] != a[0] && b[3] != a[0]);
            }
        },
        (Colour::T, Transform::IdenRot180, Transform::IdenRot90) => {
            assert(a =~= seq![Point { x: 2, y: 1 }, Point { x: 1, y: 0 }, Point { x: 1, y: 1 }, Point { x: 0, y: 1 }]);
            assert(b =~= seq![Point { x: 0, y: 2 }, Point { x: 1, y: 1 }, Point { x: 0, y: 1 }, Point { x: 0, y: 0 }]);
            assert(!b.contains(a[0])) by {
                assert(b[0] != a[0] && b[1] != a[0] && b[2] != a[0] && b[3] != a[0]);
            }
        },
        (Colour::T, Transform::IdenRot180, Transform::IdenRot270) => {
            assert(a =~= seq![Point { x: 2, y: 1 }, Point { x: 1, y: 0 }, Point { x: 1, y: 1 }, Point { x: 0, y: 1 }]);
            assert(b =~= seq![Point { x: 1, y: 0 }, Point { x: 0, y: 1 }, Point { x: 1, y: 1 }, Point { x: 1, y: 2 }]);
            assert(!b.contains(a[0])) by {
                assert(b[0] != a[0] && b[1] != a[0] && b[2] != a[0] && b[3] != a[0]);
            }
        },
        (Colour::T, Transform::IdenRot270, Transform::Identity) => {
            assert(a =~= seq![Point { x: 1, y: 0 }, Point { x: 0, y: 1 }, Point { x: 1, y: 1 }, Point { x: 1, y: 2 }]);
            assert(b =~= seq![Point { x: 0, y: 0 }, Point { x: 1, y: 1 }, Point { x: 1, y: 0 }, Point { x: 2, y: 0 }]);
            assert(!b.contains(a[1])) by {
                assert(b[0] != a[1] && b[1] != a[1] && b[2] != a[1] && b[3] != a[1]);
            }
        },
        (Colour::T, Transform::IdenRot270, Transform::IdenRot90) => {
            assert(a =~= seq![Point { x: 1, y: 0 }, Point { x: 0, y: 1 }, Point { x: 1, y: 1 }, Point { x: 1, y: 2 }]);
            assert(b =~= seq![Point { x: 0, y: 2 }, Point { x: 1, y: 1 }, Point { x: 0, y: 1 }, Point { x: 0, y: 0 }]);
            assert(!b.contains(a[0])) by {
                assert(b[0] != a[0] && b[1] != a[0] && b[2] != a[0] && b[3] != a[0]);
            }
        },
        (Colour::T, Transform::IdenRot270, Transform::IdenRot180) => {
            assert(a =~= seq![Point { x: 1, y: 0 }, Point { x: 0, y: 1 }, Point { x: 1, y: 1 }, Point { x: 1, y: 2 }]);
            assert(b =~= seq![Point { x: 2, y: 1 }, Point { x: 1, y: 0 }, Point { x: 1, y: 1 }, Point { x: 0, y: 1 }]);
            assert(!b.contains(a[3])) by {
                assert(b[0] != a[3] && b[1] != a[3] && b[2] != a[3] && b[3] != a[3]);
            }
        },
        (Colour::S, Transform::Identity, Transform::IdenRot90) => {
            assert(a =~= seq![Point { x: 0, y: 1 }, Point { x: 1, y: 1 }, Point { x: 1, y: 0 }, Point { x: 2, y: 0 }]);
            assert(b =~= seq![Point { x: 1, y: 2 }, Point { x: 1, y: 1 }, Point { x: 0, y: 1 }, Point { x: 0, y: 0 }]);
            assert(!b.contains(a[2])) by {
                assert(b[0] != a[2] && b[1] != a[2] && b[2] != a[2] && b[3] != a[2]);
            }
        },
        (Colour::S, Transform::Identity, Transform::Reflect) => {
            assert(a =~= seq![Point { x: 0, y: 1 }, Point { x: 1, y: 1 }, Point { x: 1, y: 0 }, Point { x: 2, y: 0 }]);
            assert(b =~= seq![Point { x: 2, y: 1 }, Point { x: 1, y: 1 }, Point { x: 1, y: 0 }, Point { x: 0, y: 0 }]);
            assert(!b.contains(a[0])) by {
                assert(b[0] != a[0] && b[1] != a[0] && b[2] != a[0] && b[3] != a[0]);
            }
        },
        (Colour::S, Transform::Identity, Transform::ReflRot90) => {
            assert(a =~= seq![Point { x: 0, y: 1 }, Point { x: 1, y: 1 }, Point { x: 1, y: 0 }, Point { x: 2, y: 0 }]);
            assert(b =~= seq![Point { x: 1, y: 0 }, Point { x: 1, y: 1 }, Point { x: 0, y: 1 }, Point { x: 0, y: 2 }]);
            assert(!b.contains(a[3])) by {
                assert(b[0] != a[3] && b[1] != a[3] && b[2] != a[3] && b[3] != a[3]);
            }
        },
        (Colour::S, Transform::IdenRot90, Transform::Identity) => {
            assert(a =~= seq![Point { x: 1, y: 2 }, Point { x: 1, y: 1 }, Point { x: 0, y: 1 }, Point { x: 0, y: 0 }]);
            assert(b =~= seq![Point { x: 0, y: 1 }, Point { x: 1, y: 1 }, Point { x: 1, y: 0 }, Point { x: 2, y: 0 }]);
            assert(!b.contains(a[0])) by {
                assert(b[0] != a[0] && b[1] != a[0] && b[2] != a[0] && b[3] != a[0]);
            }
        },
        (Colour::S, Transform::IdenRot90, Transform::Reflect) => {
            assert(a =~= seq![Point { x: 1, y: 2 }, Point { x: 1, y: 1 }, Point { x: 0, y: 1 }, Point { x: 0, y: 0 }]);
            assert(b =~= seq![Point { x: 2, y: 1 }, Point { x: 1, y: 1 }, Point { x: 1, y: 0 }, Point { x: 0, y: 0 }]);
            assert(!b.contains(a[0])) by {
                assert(b[0] != a[0] && b[1] != a[0] && b[2] != a[0] && b[3] != a[0]);
            }
        },
        (Colour::S, Transform::IdenRot90, Transform::ReflRot90) => {
            assert(a =~= seq![Point { x: 1, y: 2 }, Point { x: 1, y: 1 }, Point { x: 0, y: 1 }, Point { x: 0, y: 0 }]);
            assert(b =~= seq![Point { x: 1, y: 0 }, Point { x: 1, y: 1 }, Point { x: 0, y: 1 }, Point { x: 0, y: 2 }]);
            assert(!b.contains(a[0])) by {
                assert(b[0] != a[0] && b[1] != a[0] && b[2] != a[0] && b[3] != a[0]);
            }
        },
        (Colour::S, Transform::Reflect, Transform::Identity) => {
            assert(a =~= seq![Point { x: 2, y: 1 }, Point { x: 1, y: 1 }, Point { x: 1, y: 0 }, Point { x: 0, y: 0 }]);
            assert(b =~= seq![Point { x: 0, y: 1 }, Point { x: 1, y: 1 }, Point { x: 1, y: 0 }, Point { x: 2, y: 0 }]);
            assert(!b.contains(a[0])) by {
                assert(b[0] != a[0] && b[1] != a[0] && b[2] != a[0] && b[3] != a[0]);
            }
        },
        (Colour::S, Transform::Reflect, Transform::IdenRot90) => {
            assert(a =~= seq![Point { x: 2, y: 1 }, Point { x: 1, y: 1 }, Point { x: 1, y: 0 }, Point { x: 0, y: 0 }]);
            assert(b =~= seq![Point { x: 1, y: 2 }, Point { x: 1, y: 1 }, Point { x: 0, y: 1 }, Point { x: 0, y: 0 }]);
            assert(!b.contains(a[0])) by {
                assert(b[0] != a[0] && b[1] != a[0] && b[2] != a[0] && b[3] != a[0]);
            }
        },
        (Colour::S, Transform::Reflect, Transform::ReflRot90) => {
            assert(a =~= seq![Point { x: 2, y: 1 }, Point { x: 1, y: 1 }, Point { x: 1, y: 0 }, Point { x: 0, y: 0 }]);
            assert(b =~= seq![Point { x: 1, y: 0 }, Point { x: 1, y: 1 }, Point { x: 0, y: 1 }, Point { x: 0, y: 2 }]);
            assert(!b.contains(a[0])) by {
                assert(b[0] != a[0] && b[1] != a[0] && b[2] != a[0] && b[3] != a[0]);
            }
        },
        (Colour::S, Transform::ReflRot90, Transform::Identity) => {
            assert(a =~= seq![Point { x: 1, y: 0 }, Point { x: 1, y: 1 }, Point { x: 0, y: 1 }, Point { x: 0, y: 2 }]);
            assert(b =~= seq![Point { x: 0, y: 1 }, Point { x: 1, y: 1 }, Point { x: 1, y: 0 }, Point { x: 2, y: 0 }]);
            assert(!b.contains(a[3])) by {
                assert(b[0] != a[3] && b[1] != a[3] && b[2] != a[3] && b[3] != a[3]);
            }
        },
        (Colour::S, Transform::ReflRot90, Transform::IdenRot90) => {
            assert(a =~= seq![Point { x: 1, y: 0 }, Point { x: 1, y: 1 }, Point { x: 0, y: 1 }, Point { x: 0, y: 2 }]);
            assert(b =~= seq![Point { x: 1, y: 2 }, Point { x: 1, y: 1 }, Point { x: 0, y: 1 }, Point { x: 0, y: 0 }]);
            assert(!b.contains(a[0])) by {
                assert(b[0] != a[0] && b[1] != a[0] && b[2] != a[0] && b[3] != a[0]);
            }
        },
        (Colour::S, Transform::ReflRot90, Transform::Reflect) => {
            assert(a =~= seq![Point { x: 1, y: 0 }, Point { x: 1, y: 1 }, Point { x: 0, y: 1 }, Point { x: 0, y: 2 }]);
            assert(b =~= seq![Point { x: 2, y: 1 }, Point { x: 1, y: 1 }, Point { x: 1, y: 0 }, Point { x: 0, y: 0 }]);
            assert(!b.contains(a[2])) by {
                assert(b[0] != a[2] && b[1] != a[2] && b[2] != a[2] && b[3] != a[2]);
            }
        },
        _ => {},
    }
}

/// A shape has four points in the 4x4 box, touching both the x- and y-axis.
pub proof fn lemma_shape(colour: Colour, t: Transform)
    ensures
        shape(colour, t).len() == 4,
        offsets_in_box(shape(colour, t)),
        exists|i: int| 0 <= i < 4 && (#[trigger] shape(colour, t)[i]).x == 0,
        exists|i: int| 0 <= i < 4 && (#[trigger] shape(colour, t)[i]).y == 0,
{
    let ct = t.spec_canonicalize(colour);
    let r = reference_points(colour);
    let s = transformed(r, ct);
    assert(r.len() == 4);
    assert(offsets_in_box(r));
    assert(s.len() == 4);
    lemma_min_bounds(s);
    let kx = choose|i: int| 0 <= i < s.len() && min_x(s) == (#[trigger] s[i]).x;
    let ky = choose|i: int| 0 <= i < s.len() && min_y(s) == (#[trigger] s[i]).y;
    let n = shape(colour, t);
    assert(n[kx].x == 0);
    assert(n[ky].y == 0);
    assert forall|i: int| 0 <= i < 4 implies 0 <= (#[trigger] n[i]).x <= 3 && 0 <= n[i].y <= 3 by {
        assert(s[i] == ct.spec_apply(r[i]));
        assert(s[kx] == ct.spec_apply(r[kx]));
        assert(s[ky] == ct.spec_apply(r[ky]));
        lemma_apply_spread(ct, r[i], r[kx]);
        lemma_apply_spread(ct, r[i], r[ky]);
        assert(min_x(s) <= s[i].x && min_y(s) <= s[i].y);
    }
}

/// A well-formed tetromino's points and real points are within reach of its anchor.
pub proof fn lemma_wf_points(t: TetrominoView)
    requires
        t.wf(),
    ensures
        t.points.len() == 4,
        t.real_points().len() == 4,
        offsets_in_box(t.points),
        t.is_small(),
        forall|i: int|
            0 <= i < 4 ==> (#[trigger] t.real_points()[i]).x == t.anchor.x + t.points[i].x
                && t.real_points()[i].y == t.anchor.y + t.points[i].y,
{
    lemma_shape(t.colour, t.transform);
}

impl Clone for Tetromino {
    fn clone(&self) -> (r: Tetromino)
        ensures
            r@ == self@,
    {
        let points = self.points.clone();
        assert(points@ =~= self.points@);
        Tetromino { colour: self.colour, anchor: self.anchor, points, transform: self.transform }
    }
}

impl PartialEq for Tetromino {
    fn eq(&self, other: &Tetromino) -> (r: bool)
        ensures
            r == (self@ == other@),
    {
        if self.colour != other.colour || self.anchor != other.anchor || self.transform
            != other.transform || self.points.len() != other.points.len() {
            return false;
        }
        let mut i: usize = 0;
        while i < self.points.len()
            invariant
                i <= self.points@.len(),
                self.points@.len() == other.points@.len(),
                forall|k: int| 0 <= k < i ==> self.points@[k] == other.points@[k],
            decreases self.points@.len() - i,
        {
            if self.points[i] != other.points[i] {
                return false;
            }
            i = i + 1;
        }
        assert(self.points@ =~= other.points@);
        true
    }
}

impl vstd::std_specs::cmp::PartialEqSpecImpl for Tetromino {
    open spec fn obeys_eq_spec() -> bool {
        true
    }

    open spec fn eq_spec(&self, other: &Tetromino) -> bool {
        self@ == other@
    }
}

impl Transform {
    /// Applies this transform to the tetromino's points, canonicalized for its colour;
    /// the anchor is kept and the points are normalized again.
    pub fn apply_to_tetromino(&self, target: &Tetromino) -> (r: Tetromino)
        requires
            target@.points.len() > 0,
            forall|i: int| 0 <= i < target@.points.len() ==> small(#[trigger] target@.points[i]),
        ensures
            r@.colour == target@.colour,
            r@.anchor == target@.anchor,
            r@.transform == target@.transform.spec_compose(*self).spec_canonicalize(target@.colour),
            r@.points == normalized(
                transformed(target@.points, self.spec_canonicalize(target@.colour)),
            ),
    {
        let colour = target.colour;
        let t = self.canonicalize(&colour);
        let mut points: Vec<Point> = Vec::new();
        let n = target.points.len();
        let mut i: usize = 0;
        while i < n
            invariant
                i <= n,
                n == target.points@.len(),
                forall|k: int| 0 <= k < n ==> small(#[trigger] target.points@[k]),
                points@ == transformed(target.points@.take(i as int), t),
            decreases n - i,
        {
            let p = t.apply_to_point(&target.points[i]);
            points.push(p);
            i = i + 1;
            proof {
                assert(points@ =~= transformed(target.points@.take(i as int), t));
            }
        }
        proof {
            assert(target.points@.take(n as int) =~= target.points@);
            assert forall|k: int| 0 <= k < points@.len() implies small(#[trigger] points@[k]) by {
                assert(small(target.points@[k]));
            }
        }
        Transform::normalize(&mut points);
        let transform = target.transform.compose(self).canonicalize(&colour);
        Tetromino { colour, anchor: target.anchor, points, transform }
    }
}

impl Tetromino {
    /// Returns the anchor of this tetromino.
    pub fn anchor(&self) -> (r: Point)
        ensures
            r == self@.anchor,
    {
        self.anchor
    }

    /// Returns the colour of this tetromino.
    pub fn colour(&self) -> (r: Colour)
        ensures
            r == self@.colour,
    {
        self.colour
    }

    /// Returns the transform of this piece relative to its reference shape.
    pub fn transform(&self) -> (r: Transform)
        ensures
            r == self@.transform,
    {
        self.transform
    }

    /// Returns a view on this tetromino's relative points.
    pub fn points(&self) -> (r: &Vec<Point>)
        ensures
            r@ == self@.points,
    {
        &self.points
    }

    /// Returns a new raw tetromino, not guaranteed to be valid.
    pub fn construct_raw(colour: &Colour, anchor: &Point, points: &Vec<Point>, transform: &Transform) -> (r: Tetromino)
        ensures
            r@ == (TetrominoView { colour: *colour, anchor: *anchor, points: points@, transform: *transform }),
    {
        let points = points.clone();
        assert(points@ =~= points@);
        let r = Tetromino { colour: *colour, anchor: *anchor, points, transform: *transform };
        r
    }

    /// Returns the identity tetromino of the colour at the given anchor.
    pub fn get_reference_tetromino(colour: &Colour, anchor: &Point) -> (r: Tetromino)
        requires
            colour.is_piece(),
        ensures
            r@ == (TetrominoView {
                colour: *colour,
                anchor: *anchor,
                points: reference_points(*colour),
                transform: Transform::Identity,
            }),
    {
        let point_set = match colour {
            Colour::L => vec![Point::new(0, 0), Point::new(0, 1), Point::new(0, 2), Point::new(1, 2)],
            Colour::I => vec![Point::new(0, 0), Point::new(0, 1), Point::new(0, 2), Point::new(0, 3)],
            Colour::T => vec![Point::new(0, 0), Point::new(1, 1), Point::new(1, 0), Point::new(2, 0)],
            _ => vec![Point::new(0, 1), Point::new(1, 1), Point::new(1, 0), Point::new(2, 0)],
        };
        assert(point_set@ =~= reference_points(*colour));
        Tetromino { colour: *colour, anchor: *anchor, points: point_set, transform: Transform::Identity }
    }

    /// Generates the tetromino with the given shape and transform, canonicalizing it.
    pub fn new(colour: &Colour, anchor: &Point, transform: &Transform) -> (r: Tetromino)
        requires
            colour.is_piece(),
            small(*anchor),
        ensures
            r@ == placement(*colour, *anchor, transform.spec_canonicalize(*colour)),
            r@.wf(),
    {
        let template = Tetromino::get_reference_tetromino(colour, anchor);
        let t = transform.canonicalize(colour);
        let r = t.apply_to_tetromino(&template);
        proof {
            assert(t.spec_canonicalize(*colour) == t);
            assert(Transform::Identity.spec_compose(t) == t);
            assert(r@.points =~= shape(*colour, t));
        }
        r
    }

    /// Returns, in the order of `Transform::enumerate`, this tetromino under each
    /// canonical transform of its colour, at the same anchor.
    pub fn enumerate_transforms(&self) -> (r: Vec<Tetromino>)
        requires
            self@.points.len() > 0,
            forall|i: int| 0 <= i < self@.points.len() ==> small(#[trigger] self@.points[i]),
        ensures
            r@.len() == canonical_transforms(self@.colour).len(),
            forall|i: int|
                0 <= i < r@.len() ==> {
                    let t = canonical_transforms(self@.colour)[i];
                    &&& (#[trigger] r@[i])@.colour == self@.colour
                    &&& r@[i]@.anchor == self@.anchor
                    &&& r@[i]@.transform == self@.transform.spec_compose(t).spec_canonicalize(self@.colour)
                    &&& r@[i]@.points == normalized(transformed(self@.points, t.spec_canonicalize(self@.colour)))
                },
    {
        let ts = Transform::enumerate(&self.colour);
        let mut r: Vec<Tetromino> = Vec::new();
        let mut i: usize = 0;
        while i < ts.len()
            invariant
                i <= ts@.len(),
                ts@ == canonical_transforms(self@.colour),
                self@.points.len() > 0,
                forall|k: int| 0 <= k < self@.points.len() ==> small(#[trigger] self@.points[k]),
                r@.len() == i,
                forall|k: int|
                    0 <= k < i ==> {
                        let t = canonical_transforms(self@.colour)[k];
                        &&& (#[trigger] r@[k])@.colour == self@.colour
                        &&& r@[k]@.anchor == self@.anchor
                        &&& r@[k]@.transform == self@.transform.spec_compose(t).spec_canonicalize(self@.colour)
                        &&& r@[k]@.points == normalized(transformed(self@.points, t.spec_canonicalize(self@.colour)))
                    },
            decreases ts@.len() - i,
        {
            let t = ts[i].apply_to_tetromino(self);
            r.push(t);
            i = i + 1;
        }
        r
    }

    /// Determines if the given tetromino is null.
    pub fn is_null(&self) -> (r: bool)
        ensures
            r == (self@.colour == Colour::Empty),
    {
        self.colour == Colour::Empty
    }

    /// Moves this tetromino.
    pub fn move_anchor(&mut self, anchor: &Point)
        ensures
            final(self)@ == (TetrominoView { anchor: *anchor, ..old(self)@ }),
    {
        self.anchor = *anchor;
    }

    /// Returns the null tetromino, which stands for "no move".
    pub fn null() -> (r: Tetromino)
        ensures
            r@ == null_view(),
    {
        let mut r = Tetromino::new(&Colour::L, &Point::new(0, 0), &Transform::Identity);
        r.colour = Colour::Empty;
        r
    }

    /// Returns the real positions of this tetromino's tiles on the board.
    pub fn points_real(&self) -> (r: Vec<Point>)
        requires
            self@.is_small(),
        ensures
            r@ == self@.real_points(),
    {
        let mut r: Vec<Point> = Vec::new();
        let n = self.points.len();
        let mut i: usize = 0;
        while i < n
            invariant
                i <= n,
                n == self.points@.len(),
                self@.is_small(),
                r@ == self@.real_points().take(i as int),
            decreases n - i,
        {
            proof {
                assert(small(self.points@[i as int]));
            }
            let p = self.points[i];
            r.push(Point::new(self.anchor.x + p.x, self.anchor.y + p.y));
            i = i + 1;
            proof {
                assert(r@ =~= self@.real_points().take(i as int));
            }
        }
        assert(r@ =~= self@.real_points());
        r
    }

    /// Returns the tetromino of the colour at the anchor whose relative points
    /// are the given ones, deducing the transform: the first canonical
    /// transform whose shape lies within the points.
    pub fn from_points_with_anchor(colour: &Colour, anchor: &Point, points: &Vec<Point>) -> (r: Result<Tetromino, LitsError>)
        requires
            colour.is_piece(),
            small(*anchor),
        ensures
            match r {
                Ok(t) => first_fit(*colour, *anchor, points@, t@) && t@.wf(),
                Err(e) => e == LitsError::InvalidShape && !colour_fits(*colour, points@),
            },
    {
        let template = Tetromino::get_reference_tetromino(colour, anchor);
        let transformed = template.enumerate_transforms();
        let ghost ct = canonical_transforms(*colour);
        proof {
            lemma_canonical_transforms(*colour);
            assert forall|i: int| 0 <= i < ct.len() implies Transform::Identity.spec_compose(#[trigger] ct[i]).spec_canonicalize(*colour) == ct[i] && ct[i].spec_canonicalize(*colour) == ct[i] by {
                assert(ct[i].is_canonical(*colour));
            }
        }
        let mut j: usize = 0;
        while j < transformed.len()
            invariant
                j <= transformed@.len(),
                transformed@.len() == ct.len(),
                ct == canonical_transforms(*colour),
                colour.is_piece(),
                small(*anchor),
                forall|i: int| 0 <= i < ct.len() ==> (#[trigger] ct[i]).is_canonical(*colour),
                forall|i: int| 0 <= i < ct.len() ==> (#[trigger] transformed@[i])@ == placement(*colour, *anchor, ct[i]),
                forall|k: int| 0 <= k < j ==> !fits(*colour, points@, #[trigger] ct[k]),
            decreases transformed@.len() - j,
        {
            let cand = &transformed[j];
            proof {
                assert(cand@.points =~= shape(*colour, ct[j as int]));
                lemma_shape(*colour, ct[j as int]);
            }
            let mut all = true;
            let mut i: usize = 0;
            while i < cand.points.len()
                invariant
                    i <= cand.points@.len(),
                    all == forall|k: int| 0 <= k < i ==> points@.contains(#[trigger] cand.points@[k]),
                decreases cand.points@.len() - i,
            {
                let mut found = false;
                let mut m: usize = 0;
                while m < points.len()
                    invariant
                        m <= points@.len(),
                        i < cand.points@.len(),
                        found == exists|k: int| 0 <= k < m && points@[k] == cand.points@[i as int],
                    decreases points@.len() - m,
                {
                    if points[m] == cand.points[i] {
                        found = true;
                    }
                    m = m + 1;
                }
                proof {
                    if points@.contains(cand.points@[i as int]) {
                        let k = choose|k: int| 0 <= k < points@.len() && points@[k] == cand.points@[i as int];
                        assert(found);
                    }
                }
                if !found {
                    all = false;
                }
                i = i + 1;
            }
            if all {
                let r = cand.clone();
                proof {
                    assert(fits(*colour, points@, ct[j as int]));
                    assert(first_fit(*colour, *anchor, points@, r@));
                }
                return Ok(r);
            }
            proof {
                assert(!fits(*colour, points@, ct[j as int]));
            }
            j = j + 1;
        }
        Err(LitsError::InvalidShape)
    }

    /// Returns the tetromino of the colour covering the given absolute points,
    /// anchored at the corner of their bounding box, deducing the transform.
    pub fn from_points_with_colour(colour: &Colour, points: &Vec<Point>) -> (r: Result<Tetromino, LitsError>)
        requires
            colour.is_piece(),
            points@.len() > 0,
            forall|i: int| 0 <= i < points@.len() ==> small(#[trigger] points@[i]),
        ensures
            match r {
                Ok(t) => first_fit(*colour, Point { x: min_x(points@) as i32, y: min_y(points@) as i32 }, normalized(points@), t@)
                    && t@.wf(),
                Err(e) => e == LitsError::InvalidShape && !colour_fits(*colour, normalized(points@)),
            },
    {
        let mut norm = points.clone();
        assert(norm@ =~= points@);
        let anchor = Transform::normalize(&mut norm);
        proof {
            lemma_min_bounds(points@);
            let kx = choose|k: int| 0 <= k < points@.len() && min_x(points@) == (#[trigger] points@[k]).x;
            let ky = choose|k: int| 0 <= k < points@.len() && min_y(points@) == (#[trigger] points@[k]).y;
            assert(small(points@[kx]) && small(points@[ky]));
        }
        Tetromino::from_points_with_anchor(colour, &anchor, &norm)
    }

    /// Returns the tetromino covering the given absolute points, deducing the
    /// colour (the first of L, I, T, S whose shape fits) and the transform.
    pub fn from_points(points: &Vec<Point>) -> (r: Result<Tetromino, LitsError>)
        requires
            points@.len() > 0,
            forall|i: int| 0 <= i < points@.len() ==> small(#[trigger] points@[i]),
        ensures
            match r {
                Ok(t) => t@.wf() && colour_fits(t@.colour, normalized(points@))
                    && first_fit(t@.colour, Point { x: min_x(points@) as i32, y: min_y(points@) as i32 }, normalized(points@), t@)
                    && forall|i: int| 0 <= i < t@.colour.index() ==> !colour_fits(#[trigger] colour_of_index(i), normalized(points@)),
                Err(e) => e == LitsError::InvalidShape && forall|i: int| 0 <= i < 4 ==> !colour_fits(#[trigger] colour_of_index(i), normalized(points@)),
            },
    {
        let colours = [Colour::L, Colour::I, Colour::T, Colour::S];
        let mut i: usize = 0;
        while i < 4
            invariant
                i <= 4,
                points@.len() > 0,
                forall|k: int| 0 <= k < points@.len() ==> small(#[trigger] points@[k]),
                colours@ == seq![Colour::L, Colour::I, Colour::T, Colour::S],
                forall|k: int| 0 <= k < i ==> !colour_fits(#[trigger] colour_of_index(k), normalized(points@)),
            decreases 4 - i,
        {
            let colour = colours[i];
            assert(colour == colour_of_index(i as int));
            match Tetromino::from_points_with_colour(&colour, points) {
                Ok(t) => {
                    return Ok(t);
                },
                Err(_) => {},
            }
            i = i + 1;
        }
        Err(LitsError::InvalidShape)
    }

    /// Returns the attach points this tetromino creates when played: the
    /// on-board tiles next to it that are not its own, in increasing order.
    pub fn get_attaches(&self) -> (r: Vec<Point>)
        requires
            self@.wf(),
        ensures
            forall|p: Point| r@.contains(p) <==> is_attach_of(self@, p),
            forall|i: int, j: int| 0 <= i < j < r@.len() ==> point_before(r@[i], r@[j]),
    {
        proof {
            lemma_wf_points(self@);
        }
        let pts = self.points_real();
        let ax = self.anchor.x;
        let ay = self.anchor.y;
        let ghost t = self@;
        let mut r: Vec<Point> = Vec::new();
        let mut x: i32 = ax - 1;
        while x < ax + 5
            invariant
                ax - 1 <= x <= ax + 5,
                ax == t.anchor.x,
                ay == t.anchor.y,
                small(t.anchor),
                t == self@,
                t.wf(),
                pts@ == t.real_points(),
                pts@.len() == 4,
                offsets_in_box(t.points),
                forall|i: int| 0 <= i < 4 ==> (#[trigger] pts@[i]).x == ax + t.points[i].x && pts@[i].y == ay + t.points[i].y,
                forall|i: int, j: int| 0 <= i < j < r@.len() ==> point_before(r@[i], r@[j]),
                forall|i: int| 0 <= i < r@.len() ==> (#[trigger] r@[i]).x < x,
                forall|p: Point| r@.contains(p) <==> (is_attach_of(t, p) && p.x < x),
            decreases ax + 5 - x,
        {
            let mut y: i32 = ay - 1;
            while y < ay + 5
                invariant
                    ax - 1 <= x < ax + 5,
                    ay - 1 <= y <= ay + 5,
                    ax == t.anchor.x,
                    ay == t.anchor.y,
                    small(t.anchor),
                    t.wf(),
                    pts@ == t.real_points(),
                    pts@.len() == 4,
                    offsets_in_box(t.points),
                    forall|i: int| 0 <= i < 4 ==> (#[trigger] pts@[i]).x == ax + t.points[i].x && pts@[i].y == ay + t.points[i].y,
                    forall|i: int, j: int| 0 <= i < j < r@.len() ==> point_before(r@[i], r@[j]),
                    forall|i: int| 0 <= i < r@.len() ==> (#[trigger] r@[i]).x < x || (r@[i].x == x && r@[i].y < y),
                    forall|p: Point| r@.contains(p) <==> (is_attach_of(t, p) && (p.x < x || (p.x == x && p.y < y))),
                decreases ay + 5 - y,
            {
                let p = Point::new(x, y);
                let mut own = false;
                let mut near = false;
                let mut i: usize = 0;
                while i < 4
                    invariant
                        i <= 4,
                        pts@.len() == 4,
                        small(t.anchor),
                        ax == t.anchor.x,
                        ay == t.anchor.y,
                        ax - 1 <= x < ax + 5,
                        ay - 1 <= y < ay + 5,
                        p == (Point { x, y }),
                        own == exists|k: int| 0 <= k < i && pts@[k] == p,
                        near == exists|k: int| 0 <= k < i && adjacent(p, #[trigger] pts@[k]),
                    decreases 4 - i,
                {
                    let q = pts[i];
                    if q == p {
                        own = true;
                    }
                    if (q.x == p.x && (q.y == p.y + 1 || q.y == p.y - 1)) || (q.y == p.y && (q.x == p.x + 1 || q.x == p.x - 1)) {
                        near = true;
                        assert(adjacent(p, pts@[i as int]));
                    }
                    i = i + 1;
                }
                proof {
                    if own {
                        let k = choose|k: int| 0 <= k < 4 && pts@[k] == p;
                        assert(t.real_points().contains(p));
                    }
                    if t.real_points().contains(p) {
                        let k = choose|k: int| 0 <= k < t.real_points().len() && t.real_points()[k] == p;
                        assert(pts@[k] == p);
                    }
                }
                let ghost before = r@;
                if p.in_bounds() && !own && near {
                    r.push(p);
                    proof {
                        assert forall|i: int, j: int| 0 <= i < j < r@.len() implies point_before(r@[i], r@[j]) by {
                            if j == before.len() {
                                assert(before[i].x < x || (before[i].x == x && before[i].y < y));
                            } else {
                                assert(r@[i] == before[i] && r@[j] == before[j]);
                            }
                        }
                    }
                    proof {
                        assert forall|q: Point| r@.contains(q) <==> (before.contains(q) || q == p) by {
                            if r@.contains(q) {
                                let k = choose|k: int| 0 <= k < r@.len() && r@[k] == q;
                                if k < before.len() {
                                    assert(before[k] == q);
                                }
                            }
                            if before.contains(q) {
                                let k = choose|k: int| 0 <= k < before.len() && before[k] == q;
                                assert(r@[k] == q);
                            }
                            if q == p {
                                assert(r@[before.len() as int] == q);
                            }
                        }
                    }
                }
                y = y + 1;
            }
            proof {
                assert forall|p: Point| is_attach_of(t, p) && p.x == x implies p.y < ay + 5 by {
                    let k = choose|k: int| 0 <= k < t.real_points().len() && adjacent(p, #[trigger] t.real_points()[k]);
                    assert(pts@[k].y <= ay + 3);
                }
            }
            x = x + 1;
        }
        proof {
            assert forall|p: Point| is_attach_of(t, p) implies p.x < ax + 5 by {
                let k = choose|k: int| 0 <= k < t.real_points().len() && adjacent(p, #[trigger] t.real_points()[k]);
                assert(pts@[k].x <= ax + 3);
            }
        }
        r
    }
}

} // verus!
