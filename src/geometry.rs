use vstd::prelude::*;

verus! {

/// A pair of integers: an absolute board square (1-indexed) or a relative offset.
#[derive(Debug, Clone, Copy)]
pub struct Point(pub i32, pub i32);

/// Whether `(x, y)` names a square of the 8x8 board.
pub open spec fn in_bounds(x: int, y: int) -> bool {
    1 <= x <= 8 && 1 <= y <= 8
}

/// Whether the point names a square of the board.
pub open spec fn on_board(p: Point) -> bool {
    in_bounds(p.0 as int, p.1 as int)
}

pub open spec fn clamp_int(v: int, lo: int, hi: int) -> int {
    if v < lo {
        lo
    } else if v > hi {
        hi
    } else {
        v
    }
}

pub open spec fn sign(v: int) -> int {
    if v > 0 {
        1
    } else if v < 0 {
        -1
    } else {
        0
    }
}

pub open spec fn abs(v: int) -> int {
    if v < 0 {
        -v
    } else {
        v
    }
}

/// An offset along a rank, a file or a diagonal, small enough that its
/// magnitude fits an `i32`.
pub open spec fn is_line(p: Point) -> bool {
    &&& p.0 != i32::MIN
    &&& p.1 != i32::MIN
    &&& (p.0 == 0 || p.1 == 0 || abs(p.0 as int) == abs(p.1 as int))
}

/// The number of unit steps from the origin to `p` along its line.
pub open spec fn step_count(p: Point) -> int {
    if abs(p.0 as int) >= abs(p.1 as int) {
        abs(p.0 as int)
    } else {
        abs(p.1 as int)
    }
}

/// The unit steps from the origin to `p`, nearest first: the `i`-th is
/// `(i + 1)` times the sign of each coordinate.
pub open spec fn line_path(p: Point) -> Seq<Point> {
    Seq::new(
        step_count(p) as nat,
        |i: int| Point(((i + 1) * sign(p.0 as int)) as i32, ((i + 1) * sign(p.1 as int)) as i32),
    )
}

impl Point {
    pub fn add(&self, point2: &Self) -> (r: Self)
        requires
            i32::MIN <= self.0 + point2.0 <= i32::MAX,
            i32::MIN <= self.1 + point2.1 <= i32::MAX,
        ensures
            r.0 == self.0 + point2.0,
            r.1 == self.1 + point2.1,
    {
        Point(self.0 + point2.0, self.1 + point2.1)
    }

    /// Component-wise product.
    pub fn mul(&self, point2: &Self) -> (r: Self)
        requires
            i32::MIN <= self.0 * point2.0 <= i32::MAX,
            i32::MIN <= self.1 * point2.1 <= i32::MAX,
        ensures
            r.0 == self.0 * point2.0,
            r.1 == self.1 * point2.1,
    {
        Point(self.0 * point2.0, self.1 * point2.1)
    }

    /// The point with its two coordinates swapped.
    pub fn rev(&self) -> (r: Self)
        ensures
            r.0 == self.1,
            r.1 == self.0,
    {
        Point(self.1, self.0)
    }

    pub fn eq(&self, point2: &Self) -> (r: bool)
        ensures
            r == (self.0 == point2.0 && self.1 == point2.1),
    {
        self.0 == point2.0 && self.1 == point2.1
    }

    pub fn tup(&self) -> (r: (i32, i32))
        ensures
            r == (self.0, self.1),
    {
        (self.0, self.1)
    }

    /// Each coordinate brought into the range that the two corners give.
    pub fn clamp(&self, min: &Point, max: &Point) -> (r: Self)
        requires
            min.0 <= max.0,
            min.1 <= max.1,
        ensures
            r.0 == clamp_int(self.0 as int, min.0 as int, max.0 as int),
            r.1 == clamp_int(self.1 as int, min.1 as int, max.1 as int),
    {
        let x = if self.0 < min.0 {
            min.0
        } else if self.0 > max.0 {
            max.0
        } else {
            self.0
        };
        let y = if self.1 < min.1 {
            min.1
        } else if self.1 > max.1 {
            max.1
        } else {
            self.1
        };
        Point(x, y)
    }

    /// Whether the point lies off the 8x8 board.
    pub fn out_bounds(&self) -> (r: bool)
        ensures
            r == !on_board(*self),
    {
        if self.0 < 1 || self.0 > 8 {
            return true;
        }
        if self.1 < 1 || self.1 > 8 {
            return true;
        }
        false
    }
}

/// A straight or diagonal direction, given by its farthest offset.
pub struct Line(pub Point);

impl Line {
    /// The unit steps from the origin out to the line's offset, nearest first.
    pub fn path(&self) -> (r: Vec<Point>)
        requires
            is_line(self.0),
        ensures
            r@ == line_path(self.0),
    {
        let x = self.0.0;
        let y = self.0.1;
        let ax: i32 = if x < 0 {
            -x
        } else {
            x
        };
        let ay: i32 = if y < 0 {
            -y
        } else {
            y
        };
        let n: i32 = if ax >= ay {
            ax
        } else {
            ay
        };
        let scaler = Point(
            if x > 0 {
                1
            } else if x < 0 {
                -1
            } else {
                0
            },
            if y > 0 {
                1
            } else if y < 0 {
                -1
            } else {
                0
            },
        );
        let ghost target = line_path(self.0);
        let mut result: Vec<Point> = Vec::new();
        let mut i: i32 = 0;
        while i < n
            invariant
                0 <= i <= n,
                n == step_count(self.0),
                x == self.0.0,
                y == self.0.1,
                scaler.0 == sign(x as int),
                scaler.1 == sign(y as int),
                target == line_path(self.0),
                result@ == target.subrange(0, i as int),
            decreases n - i,
        {
            let k: i32 = i + 1;
            proof {
                assert(k * scaler.0 == k * sign(x as int)) by (nonlinear_arith)
                    requires scaler.0 == sign(x as int);
                assert(k * scaler.1 == k * sign(y as int)) by (nonlinear_arith)
                    requires scaler.1 == sign(y as int);
                assert(-(k as int) <= k * sign(x as int) <= k) by (nonlinear_arith)
                    requires -1 <= sign(x as int) <= 1, k >= 0;
                assert(-(k as int) <= k * sign(y as int) <= k) by (nonlinear_arith)
                    requires -1 <= sign(y as int) <= 1, k >= 0;
            }
            let step = Point(k, k).mul(&scaler);
            assert(target[i as int].0 == step.0);
            assert(target[i as int].1 == step.1);
            result.push(step);
            assert(result@ =~= target.subrange(0, k as int));
            i = k;
        }
        assert(result@ =~= target);
        result
    }
}

} // verus!
