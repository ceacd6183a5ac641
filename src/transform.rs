use vstd::prelude::*;

use crate::colour::Colour;
use crate::point::Point;

verus! {

/// One of the 8 symmetries of the square: four rotations, each with or
/// without a reflection in a mirror parallel to the y-axis.
#[derive(Clone, Copy, Debug, PartialEq, Eq, Structural, PartialOrd, Ord, Hash)]
pub enum Transform {
    Identity,
    IdenRot90,
    IdenRot180,
    IdenRot270,
    Reflect,
    ReflRot90,
    ReflRot180,
    ReflRot270,
}

/// Coordinates small enough that negating or subtracting them cannot overflow.
pub open spec fn small(p: Point) -> bool {
    -1_000_000_000 <= p.x <= 1_000_000_000 && -1_000_000_000 <= p.y <= 1_000_000_000
}

/// Smallest x among the points (0 for no points).
pub open spec fn min_x(s: Seq<Point>) -> int
    decreases s.len(),
{
    if s.len() == 0 {
        0
    } else if s.len() == 1 {
        s[0].x as int
    } else {
        let m = min_x(s.drop_last());
        if (s.last().x as int) < m {
            s.last().x as int
        } else {
            m
        }
    }
}

/// Smallest y among the points (0 for no points).
pub open spec fn min_y(s: Seq<Point>) -> int
    decreases s.len(),
{
    if s.len() == 0 {
        0
    } else if s.len() == 1 {
        s[0].y as int
    } else {
        let m = min_y(s.drop_last());
        if (s.last().y as int) < m {
            s.last().y as int
        } else {
            m
        }
    }
}

/// The points translated so that their bounding box starts at the origin.
pub open spec fn normalized(s: Seq<Point>) -> Seq<Point> {
    s.map_values(|p: Point| Point { x: (p.x - min_x(s)) as i32, y: (p.y - min_y(s)) as i32 })
}

/// `min_x` and `min_y` are attained by some point and bound every point.
pub proof fn lemma_min_bounds(s: Seq<Point>)
    requires
        s.len() > 0,
    ensures
        forall|i: int| 0 <= i < s.len() ==> min_x(s) <= (#[trigger] s[i]).x && min_y(s) <= s[i].y,
        exists|i: int| 0 <= i < s.len() && min_x(s) == (#[trigger] s[i]).x,
        exists|i: int| 0 <= i < s.len() && min_y(s) == (#[trigger] s[i]).y,
    decreases s.len(),
{
    if s.len() > 1 {
        let t = s.drop_last();
        lemma_min_bounds(t);
        assert forall|i: int| 0 <= i < s.len() implies min_x(s) <= (#[trigger] s[i]).x && min_y(s)
            <= s[i].y by {
            if i < s.len() - 1 {
                assert(t[i] == s[i]);
            }
        }
        let jx = choose|j: int| 0 <= j < t.len() && min_x(t) == (#[trigger] t[j]).x;
        let jy = choose|j: int| 0 <= j < t.len() && min_y(t) == (#[trigger] t[j]).y;
        if (s.last().x as int) < min_x(t) {
            assert(min_x(s) == s[s.len() - 1].x);
        } else {
            assert(min_x(s) == s[jx].x);
        }
        if (s.last().y as int) < min_y(t) {
            assert(min_y(s) == s[s.len() - 1].y);
        } else {
            assert(min_y(s) == s[jy].y);
        }
    } else {
        assert(min_x(s) == s[0].x);
        assert(min_y(s) == s[0].y);
    }
}

impl Transform {
    /// Where this transform sends the point.
    pub open spec fn spec_apply(self, p: Point) -> Point {
        let x = p.x as int;
        let y = p.y as int;
        let (a, b) = match self {
            Transform::Identity => (x, y),
            Transform::IdenRot90 => (y, -x),
            Transform::IdenRot180 => (-x, -y),
            Transform::IdenRot270 => (-y, x),
            Transform::Reflect => (-x, y),
            Transform::ReflRot90 => (y, x),
            Transform::ReflRot180 => (x, -y),
            Transform::ReflRot270 => (-y, -x),
        };
        Point { x: a as i32, y: b as i32 }
    }

    /// This transform followed by a quarter turn.
    pub open spec fn spec_rotate(self) -> Transform {
        match self {
            Transform::Identity => Transform::IdenRot90,
            Transform::IdenRot90 => Transform::IdenRot180,
            Transform::IdenRot180 => Transform::IdenRot270,
            Transform::IdenRot270 => Transform::Identity,
            Transform::Reflect => Transform::ReflRot90,
            Transform::ReflRot90 => Transform::ReflRot180,
            Transform::ReflRot180 => Transform::ReflRot270,
            Transform::ReflRot270 => Transform::Reflect,
        }
    }

    /// This transform with its reflection toggled.
    pub open spec fn spec_reflect(self) -> Transform {
        match self {
            Transform::Identity => Transform::Reflect,
            Transform::IdenRot90 => Transform::ReflRot90,
            Transform::IdenRot180 => Transform::ReflRot180,
            Transform::IdenRot270 => Transform::ReflRot270,
            Transform::Reflect => Transform::Identity,
            Transform::ReflRot90 => Transform::IdenRot90,
            Transform::ReflRot180 => Transform::IdenRot180,
            Transform::ReflRot270 => Transform::IdenRot270,
        }
    }

    /// The composition `self + rhs`: `rhs`'s reflection, then its rotations,
    /// applied on top of `self`.
    pub open spec fn spec_compose(self, rhs: Transform) -> Transform {
        match rhs {
            Transform::Identity => self,
            Transform::IdenRot90 => self.spec_rotate(),
            Transform::IdenRot180 => self.spec_rotate().spec_rotate(),
            Transform::IdenRot270 => self.spec_rotate().spec_rotate().spec_rotate(),
            Transform::Reflect => self.spec_reflect(),
            Transform::ReflRot90 => self.spec_reflect().spec_rotate(),
            Transform::ReflRot180 => self.spec_reflect().spec_rotate().spec_rotate(),
            Transform::ReflRot270 => self.spec_reflect().spec_rotate().spec_rotate().spec_rotate(),
        }
    }

    /// The representative of this transform in the symmetry orbit of the shape.
    pub open spec fn spec_canonicalize(self, colour: Colour) -> Transform {
        match colour {
            Colour::I => match self {
                Transform::IdenRot180 | Transform::Reflect | Transform::ReflRot180 => Transform::Identity,
                Transform::IdenRot270 | Transform::ReflRot90 | Transform::ReflRot270 => Transform::IdenRot90,
                _ => self,
            },
            Colour::T => match self {
                Transform::Reflect => Transform::Identity,
                Transform::ReflRot90 => Transform::IdenRot90,
                Transform::ReflRot180 => Transform::IdenRot180,
                Transform::ReflRot270 => Transform::IdenRot270,
                _ => self,
            },
            Colour::S => match self {
                Transform::IdenRot180 => Transform::Identity,
                Transform::IdenRot270 => Transform::IdenRot90,
                Transform::ReflRot180 => Transform::Reflect,
                Transform::ReflRot270 => Transform::ReflRot90,
                _ => self,
            },
            _ => self,
        }
    }

    /// The transform is its own representative for the shape.
    pub open spec fn is_canonical(self, colour: Colour) -> bool {
        self.spec_canonicalize(colour) == self
    }

    /// Applies this transform to the given point, treating it as a reference point.
    pub fn apply_to_point(&self, target: &Point) -> (r: Point)
        requires
            target.x > i32::MIN,
            target.y > i32::MIN,
        ensures
            r == self.spec_apply(*target),
    {
        let x = target.x;
        let y = target.y;
        match self {
            Transform::Identity => Point::new(x, y),
            Transform::IdenRot90 => Point::new(y, -x),
            Transform::IdenRot180 => Point::new(-x, -y),
            Transform::IdenRot270 => Point::new(-y, x),
            Transform::Reflect => Point::new(-x, y),
            Transform::ReflRot90 => Point::new(y, x),
            Transform::ReflRot180 => Point::new(x, -y),
            Transform::ReflRot270 => Point::new(-y, -x),
        }
    }

    /// Returns a vector of all of the transforms.
    pub fn as_array() -> (r: Vec<Transform>)
        ensures
            r@ == seq![
                Transform::Identity,
                Transform::IdenRot90,
                Transform::IdenRot180,
                Transform::IdenRot270,
                Transform::Reflect,
                Transform::ReflRot90,
                Transform::ReflRot180,
                Transform::ReflRot270,
            ],
            forall|t: Transform| r@.contains(t),
    {
        let r = vec![
            Transform::Identity,
            Transform::IdenRot90,
            Transform::IdenRot180,
            Transform::IdenRot270,
            Transform::Reflect,
            Transform::ReflRot90,
            Transform::ReflRot180,
            Transform::ReflRot270,
        ];
        assert forall|t: Transform| r@.contains(t) by {
            let i: int = match t {
                Transform::Identity => 0,
                Transform::IdenRot90 => 1,
                Transform::IdenRot180 => 2,
                Transform::IdenRot270 => 3,
                Transform::Reflect => 4,
                Transform::ReflRot90 => 5,
                Transform::ReflRot180 => 6,
                Transform::ReflRot270 => 7,
            };
            assert(r@[i] == t);
        }
        r
    }

    /// Returns the canonical (most direct) transform for this transform and the given colour.
    pub fn canonicalize(&self, colour: &Colour) -> (r: Transform)
        ensures
            r == self.spec_canonicalize(*colour),
            r.is_canonical(*colour),
    {
        match colour {
            Colour::I => match self {
                Transform::IdenRot180 | Transform::Reflect | Transform::ReflRot180 => Transform::Identity,
                Transform::IdenRot270 | Transform::ReflRot90 | Transform::ReflRot270 => Transform::IdenRot90,
                _ => *self,
            },
            Colour::T => match self {
                Transform::Reflect => Transform::Identity,
                Transform::ReflRot90 => Transform::IdenRot90,
                Transform::ReflRot180 => Transform::IdenRot180,
                Transform::ReflRot270 => Transform::IdenRot270,
                _ => *self,
            },
            Colour::S => match self {
                Transform::IdenRot180 => Transform::Identity,
                Transform::IdenRot270 => Transform::IdenRot90,
                Transform::ReflRot180 => Transform::Reflect,
                Transform::ReflRot270 => Transform::ReflRot90,
                _ => *self,
            },
            _ => *self,
        }
    }

    /// Returns the composition `self + rhs` (see `spec_compose`).
    pub fn compose(&self, rhs: &Transform) -> (r: Transform)
        ensures
            r == self.spec_compose(*rhs),
    {
        match rhs {
            Transform::Identity => *self,
            Transform::IdenRot90 => self.rotate(),
            Transform::IdenRot180 => self.rotate().rotate(),
            Transform::IdenRot270 => self.rotate().rotate().rotate(),
            Transform::Reflect => self.reflect(),
            Transform::ReflRot90 => self.reflect().rotate(),
            Transform::ReflRot180 => self.reflect().rotate().rotate(),
            Transform::ReflRot270 => self.reflect().rotate().rotate().rotate(),
        }
    }

    /// Returns, in declaration order, the distinct canonical transforms of the colour.
    pub fn enumerate(colour: &Colour) -> (r: Vec<Transform>)
        ensures
            r@ == canonical_transforms(*colour),
            forall|t: Transform| r@.contains(#[trigger] t.spec_canonicalize(*colour)),
            forall|i: int| 0 <= i < r@.len() ==> (#[trigger] r@[i]).is_canonical(*colour),
            r@.no_duplicates(),
    {
        let r = match colour {
            Colour::I => vec![Transform::Identity, Transform::IdenRot90],
            Colour::T => vec![
                Transform::Identity,
                Transform::IdenRot90,
                Transform::IdenRot180,
                Transform::IdenRot270,
            ],
            Colour::S => vec![
                Transform::Identity,
                Transform::IdenRot90,
                Transform::Reflect,
                Transform::ReflRot90,
            ],
            _ => Transform::as_array(),
        };
        proof {
            assert(r@ =~= canonical_transforms(*colour));
            lemma_canonical_transforms(*colour);
        }
        r
    }

    /// Normalizes the points so that the corner of their bounding box is the
    /// origin; returns the offset that was taken off, the true anchor of the input.
    pub fn normalize(points: &mut Vec<Point>) -> (r: Point)
        requires
            old(points)@.len() > 0,
            forall|i: int| 0 <= i < old(points)@.len() ==> small(#[trigger] old(points)@[i]),
        ensures
            r.x == min_x(old(points)@),
            r.y == min_y(old(points)@),
            final(points)@ == normalized(old(points)@),
    {
        let ghost s = points@;
        let n = points.len();
        let mut mx: i32 = points[0].x;
        let mut my: i32 = points[0].y;
        let mut i: usize = 1;
        while i < n
            invariant
                1 <= i <= n,
                n == s.len(),
                points@ == s,
                mx == min_x(s.take(i as int)),
                my == min_y(s.take(i as int)),
            decreases n - i,
        {
            proof {
                assert(s.take(i as int + 1).drop_last() =~= s.take(i as int));
            }
            if points[i].x < mx {
                mx = points[i].x;
            }
            if points[i].y < my {
                my = points[i].y;
            }
            i = i + 1;
        }
        proof {
            assert(s.take(n as int) =~= s);
            lemma_min_bounds(s);
        }
        let anchor = Point::new(mx, my);
        let mut j: usize = 0;
        while j < n
            invariant
                j <= n,
                n == s.len(),
                points@.len() == n,
                mx == min_x(s),
                my == min_y(s),
                forall|k: int| 0 <= k < n ==> min_x(s) <= (#[trigger] s[k]).x && min_y(s) <= s[k].y,
                forall|k: int| 0 <= k < n ==> small(#[trigger] s[k]),
                exists|k: int| 0 <= k < n && min_x(s) == (#[trigger] s[k]).x,
                exists|k: int| 0 <= k < n && min_y(s) == (#[trigger] s[k]).y,
                forall|k: int| j <= k < n ==> points@[k] == s[k],
                forall|k: int| 0 <= k < j ==> points@[k] == normalized(s)[k],
            decreases n - j,
        {
            let p = points[j];
            proof {
                let kx = choose|k: int| 0 <= k < n && min_x(s) == (#[trigger] s[k]).x;
                let ky = choose|k: int| 0 <= k < n && min_y(s) == (#[trigger] s[k]).y;
                assert(small(s[kx]));
                assert(small(s[ky]));
                assert(p == s[j as int]);
                assert(small(s[j as int]));
            }
            points.set(j, Point::new(p.x - mx, p.y - my));
            j = j + 1;
        }
        assert(points@ =~= normalized(s));
        anchor
    }

    /// Returns the transform given by reflecting this transform.
    pub fn reflect(&self) -> (r: Transform)
        ensures
            r == self.spec_reflect(),
    {
        match self {
            Transform::Identity => Transform::Reflect,
            Transform::IdenRot90 => Transform::ReflRot90,
            Transform::IdenRot180 => Transform::ReflRot180,
            Transform::IdenRot270 => Transform::ReflRot270,
            Transform::Reflect => Transform::Identity,
            Transform::ReflRot90 => Transform::IdenRot90,
            Transform::ReflRot180 => Transform::IdenRot180,
            Transform::ReflRot270 => Transform::IdenRot270,
        }
    }

    /// Returns the transform given by rotating this transform by 90 degrees.
    pub fn rotate(&self) -> (r: Transform)
        ensures
            r == self.spec_rotate(),
    {
        match self {
            Transform::Identity => Transform::IdenRot90,
            Transform::IdenRot90 => Transform::IdenRot180,
            Transform::IdenRot180 => Transform::IdenRot270,
            Transform::IdenRot270 => Transform::Identity,
            Transform::Reflect => Transform::ReflRot90,
            Transform::ReflRot90 => Transform::ReflRot180,
            Transform::ReflRot180 => Transform::ReflRot270,
            Transform::ReflRot270 => Transform::Reflect,
        }
    }
}

/// The distinct canonical transforms of a colour, in declaration order.
pub open spec fn canonical_transforms(colour: Colour) -> Seq<Transform> {
    match colour {
        Colour::I => seq![Transform::Identity, Transform::IdenRot90],
        Colour::T => seq![
            Transform::Identity,
            Transform::IdenRot90,
            Transform::IdenRot180,
            Transform::IdenRot270,
        ],
        Colour::S => seq![
            Transform::Identity,
            Transform::IdenRot90,
            Transform::Reflect,
            Transform::ReflRot90,
        ],
        _ => seq![
            Transform::Identity,
            Transform::IdenRot90,
            Transform::IdenRot180,
            Transform::IdenRot270,
            Transform::Reflect,
            Transform::ReflRot90,
            Transform::ReflRot180,
            Transform::ReflRot270,
        ],
    }
}

/// The canonical transforms of a colour are exactly the images of `spec_canonicalize`,
/// each listed once.
pub proof fn lemma_canonical_transforms(colour: Colour)
    ensures
        forall|t: Transform| canonical_transforms(colour).contains(#[trigger] t.spec_canonicalize(colour)),
        forall|i: int|
            0 <= i < canonical_transforms(colour).len() ==> (#[trigger] canonical_transforms(
                colour,
            )[i]).is_canonical(colour),
        canonical_transforms(colour).no_duplicates(),
{
    let s = canonical_transforms(colour);
    assert forall|t: Transform| s.contains(#[trigger] t.spec_canonicalize(colour)) by {
        let c = t.spec_canonicalize(colour);
        let i: int = if colour == Colour::S {
            match c {
                Transform::Identity => 0,
                Transform::IdenRot90 => 1,
                Transform::Reflect => 2,
                _ => 3,
            }
        } else {
            match c {
                Transform::Identity => 0,
                Transform::IdenRot90 => 1,
                Transform::IdenRot180 => 2,
                Transform::IdenRot270 => 3,
                Transform::Reflect => 4,
                Transform::ReflRot90 => 5,
                Transform::ReflRot180 => 6,
                Transform::ReflRot270 => 7,
            }
        };
        assert(s[i] == c);
    }
}

} // verus!
