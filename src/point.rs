use vstd::prelude::*;

verus! {

/// Whether the integer coordinates `(x, y)` lie on the 10x10 board.
pub open spec fn on_board(x: int, y: int) -> bool {
    0 <= x < 10 && 0 <= y < 10
}

/// Row-major cell number of an on-board coordinate.
pub open spec fn cell_of(x: int, y: int) -> int {
    10 * x + y
}

/// A cartesian point with integer coordinates.
#[derive(Clone, Copy, Debug, PartialEq, Eq, Structural, PartialOrd, Ord, Hash)]
pub struct Point {
    pub x: i32,
    pub y: i32,
}

impl Point {
    /// The point lies on the board.
    pub open spec fn on(self) -> bool {
        on_board(self.x as int, self.y as int)
    }

    /// Row-major cell number of this point.
    pub open spec fn cell(self) -> int {
        cell_of(self.x as int, self.y as int)
    }

    /// The point offset by `(dx, dy)`, when the sum fits.
    pub open spec fn shifted(self, dx: int, dy: int) -> Point {
        Point { x: (self.x + dx) as i32, y: (self.y + dy) as i32 }
    }

    /// Coordinates are far enough from the `i32` limits for a step to each side.
    pub open spec fn steppable(self) -> bool {
        i32::MIN < self.x < i32::MAX && i32::MIN < self.y < i32::MAX
    }

    /// The four orthogonal neighbours, in the order left, right, down, up.
    pub open spec fn spec_neighbours(self) -> Seq<Point> {
        seq![self.shifted(-1, 0), self.shifted(1, 0), self.shifted(0, -1), self.shifted(0, 1)]
    }

    /// The orthogonal neighbours that lie on the board, in the same order.
    pub open spec fn spec_neighbours_on_board(self) -> Seq<Point> {
        let n = self.spec_neighbours();
        (if n[0].on() { seq![n[0]] } else { Seq::empty() })
            + (if n[1].on() { seq![n[1]] } else { Seq::empty() })
            + (if n[2].on() { seq![n[2]] } else { Seq::empty() })
            + (if n[3].on() { seq![n[3]] } else { Seq::empty() })
    }

    /// `a` is an on-board anchor from which a piece could reach this point:
    /// `a = self - (dx, dy)` with `0 <= dx <= 3` and `0 <= dy <= 3 - dx`.
    pub open spec fn is_potential_anchor(self, a: Point) -> bool {
        let dx = self.x - a.x;
        let dy = self.y - a.y;
        a.on() && 0 <= dx <= 3 && 0 <= dy <= 3 - dx
    }

    /// Returns a new point.
    pub fn new(x: i32, y: i32) -> (r: Point)
        ensures
            r.x == x,
            r.y == y,
    {
        Point { x, y }
    }

    /// Returns x.
    pub fn x(&self) -> (r: i32)
        ensures
            r == self.x,
    {
        self.x
    }

    /// Returns y.
    pub fn y(&self) -> (r: i32)
        ensures
            r == self.y,
    {
        self.y
    }

    /// Determines whether this point is on the board.
    pub fn in_bounds(&self) -> (r: bool)
        ensures
            r == self.on(),
    {
        0 <= self.x && self.x <= 9 && 0 <= self.y && self.y <= 9
    }

    /// Gets all neighbours of this point.
    pub fn neighbours(&self) -> (r: Vec<Point>)
        requires
            self.steppable(),
        ensures
            r@ == self.spec_neighbours(),
    {
        let r = vec![
            Point::new(self.x - 1, self.y),
            Point::new(self.x + 1, self.y),
            Point::new(self.x, self.y - 1),
            Point::new(self.x, self.y + 1),
        ];
        assert(r@ =~= self.spec_neighbours());
        r
    }

    /// Gets all on-board neighbours of this point.
    pub fn neighbours_on_board(&self) -> (r: Vec<Point>)
        requires
            self.steppable(),
        ensures
            r@ == self.spec_neighbours_on_board(),
            forall|i: int| 0 <= i < r@.len() ==> (#[trigger] r@[i]).on(),
    {
        let all = self.neighbours();
        let mut r: Vec<Point> = Vec::new();
        let ghost n = self.spec_neighbours();
        let mut k: usize = 0;
        while k < 4
            invariant
                k <= 4,
                all@ == n,
                n == self.spec_neighbours(),
                r@ == (if k > 0 && n[0].on() { seq![n[0]] } else { Seq::<Point>::empty() })
                    + (if k > 1 && n[1].on() { seq![n[1]] } else { Seq::<Point>::empty() })
                    + (if k > 2 && n[2].on() { seq![n[2]] } else { Seq::<Point>::empty() })
                    + (if k > 3 && n[3].on() { seq![n[3]] } else { Seq::<Point>::empty() }),
            decreases 4 - k,
        {
            let p = all[k];
            if p.in_bounds() {
                r.push(p);
            }
            k = k + 1;
            proof {
                assert(r@ =~= (if k > 0 && n[0].on() { seq![n[0]] } else { Seq::<Point>::empty() })
                    + (if k > 1 && n[1].on() { seq![n[1]] } else { Seq::<Point>::empty() })
                    + (if k > 2 && n[2].on() { seq![n[2]] } else { Seq::<Point>::empty() })
                    + (if k > 3 && n[3].on() { seq![n[3]] } else { Seq::<Point>::empty() }));
            }
        }
        assert(r@ =~= self.spec_neighbours_on_board());
        r
    }

    /// Gets the on-board anchors from which a piece could reach this point.
    pub fn get_potential_anchors(&self) -> (r: Vec<Point>)
        requires
            self.x >= i32::MIN + 3,
            self.y >= i32::MIN + 3,
        ensures
            forall|a: Point| r@.contains(a) <==> self.is_potential_anchor(a),
            r@.no_duplicates(),
    {
        let mut r: Vec<Point> = Vec::new();
        let mut dx: i32 = 0;
        while dx <= 3
            invariant
                0 <= dx <= 4,
                self.x >= i32::MIN + 3,
                self.y >= i32::MIN + 3,
                r@.no_duplicates(),
                forall|i: int| 0 <= i < r@.len() ==> self.x - (#[trigger] r@[i]).x < dx,
                forall|a: Point|
                    r@.contains(a) <==> (self.is_potential_anchor(a) && self.x - a.x < dx),
            decreases 4 - dx,
        {
            let mut dy: i32 = 0;
            while dy <= 3 - dx
                invariant
                    0 <= dx <= 3,
                    0 <= dy <= 4 - dx,
                    self.x >= i32::MIN + 3,
                    self.y >= i32::MIN + 3,
                    r@.no_duplicates(),
                    forall|i: int|
                        0 <= i < r@.len() ==> (self.x - (#[trigger] r@[i]).x < dx || (self.x
                            - r@[i].x == dx && self.y - r@[i].y < dy)),
                    forall|a: Point|
                        r@.contains(a) <==> (self.is_potential_anchor(a) && (self.x - a.x < dx || (
                        self.x - a.x == dx && self.y - a.y < dy))),
                decreases 4 - dx - dy,
            {
                let anchor = Point::new(self.x - dx, self.y - dy);
                if anchor.in_bounds() {
                    let ghost before = r@;
                    proof {
                        if before.contains(anchor) {
                            let i = choose|i: int| 0 <= i < before.len() && before[i] == anchor;
                            assert(self.x - before[i].x < dx || (self.x - before[i].x == dx
                                && self.y - before[i].y < dy));
                        }
                    }
                    r.push(anchor);
                    proof {
                        assert forall|a: Point| r@.contains(a) <==> (before.contains(a) || a == anchor) by {
                            if r@.contains(a) {
                                let i = choose|i: int| 0 <= i < r@.len() && r@[i] == a;
                                if i < before.len() {
                                    assert(before[i] == a);
                                }
                            }
                            if before.contains(a) {
                                let i = choose|i: int| 0 <= i < before.len() && before[i] == a;
                                assert(r@[i] == a);
                            }
                            if a == anchor {
                                assert(r@[before.len() as int] == a);
                            }
                        }
                    }
                }
                dy = dy + 1;
            }
            dx = dx + 1;
        }
        r
    }
}

} // verus!
