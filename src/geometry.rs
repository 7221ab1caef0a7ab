use vstd::prelude::*;

verus! {

/// A point of the integer plane.
#[derive(Clone, Copy, Debug, PartialEq, Eq, Structural)]
pub struct Point {
    pub x: i32,
    pub y: i32,
}

/// A displacement or direction between two points.
#[derive(Clone, Copy, Debug, PartialEq, Eq, Structural)]
pub struct Vector {
    pub x: i64,
    pub y: i64,
}

/// The 2D determinant `ax * by - ay * bx` of two vectors given by their components.
pub open spec fn det(ax: int, ay: int, bx: int, by: int) -> int {
    ax * by - ay * bx
}

impl Point {
    pub fn new(x: i32, y: i32) -> (r: Point)
        ensures
            r.x == x,
            r.y == y,
    {
        Point { x, y }
    }

    /// The vector leading from `p` to `self`, that is `self - p`.
    pub fn sub(self, p: Point) -> (r: Vector)
        ensures
            r.x == self.x - p.x,
            r.y == self.y - p.y,
    {
        Vector::new(self.x as i64 - p.x as i64, self.y as i64 - p.y as i64)
    }

    /// The point reached from `self` by moving along `v`, that is `self + v`.
    pub fn add(self, v: Vector) -> (r: Point)
        requires
            i32::MIN <= self.x + v.x <= i32::MAX,
            i32::MIN <= self.y + v.y <= i32::MAX,
        ensures
            r.x == self.x + v.x,
            r.y == self.y + v.y,
    {
        Point::new((self.x as i64 + v.x) as i32, (self.y as i64 + v.y) as i32)
    }
}

impl Vector {
    pub fn new(x: i64, y: i64) -> (r: Vector)
        ensures
            r.x == x,
            r.y == y,
    {
        Vector { x, y }
    }

    /// The cross product of two vectors, as a value in contracts.
    pub open spec fn cross_spec(self, v: Vector) -> int {
        det(self.x as int, self.y as int, v.x as int, v.y as int)
    }

    /// The squared Euclidean length, as a value in contracts.
    pub open spec fn length_squared_spec(self) -> int {
        self.x * self.x + self.y * self.y
    }

    /// The cross product `self.x * v.y - self.y * v.x`: the signed area of the
    /// parallelogram spanned by the two vectors, zero exactly when they are parallel.
    pub fn cross(&self, v: &Vector) -> (r: i128)
        ensures
            r == self.cross_spec(*v),
    {
        let a = self.x as i128;
        let b = self.y as i128;
        let c = v.x as i128;
        let d = v.y as i128;
        assert(i64::MIN * i64::MIN >= a * d >= i64::MIN * i64::MAX) by (nonlinear_arith)
            requires
                i64::MIN <= a <= i64::MAX,
                i64::MIN <= d <= i64::MAX,
        ;
        assert(i64::MIN * i64::MIN >= b * c >= i64::MIN * i64::MAX) by (nonlinear_arith)
            requires
                i64::MIN <= b <= i64::MAX,
                i64::MIN <= c <= i64::MAX,
        ;
        a * d - b * c
    }

    /// The squared Euclidean length `x * x + y * y`; it is never negative, and zero
    /// exactly for the zero vector.
    pub fn length_squared(&self) -> (r: u128)
        ensures
            r == self.length_squared_spec(),
            r == 0 <==> (self.x == 0 && self.y == 0),
    {
        let a = self.x as i128;
        let b = self.y as i128;
        assert(0 <= a * a <= i64::MIN * i64::MIN) by (nonlinear_arith)
            requires
                i64::MIN <= a <= i64::MAX,
        ;
        assert(0 <= b * b <= i64::MIN * i64::MIN) by (nonlinear_arith)
            requires
                i64::MIN <= b <= i64::MAX,
        ;
        assert(a * a == 0 <==> a == 0) by (nonlinear_arith);
        assert(b * b == 0 <==> b == 0) by (nonlinear_arith);
        (a * a) as u128 + (b * b) as u128
    }

    /// Scales the vector by `c`, componentwise.
    pub fn scale(&self, c: i64) -> (r: Vector)
        requires
            i64::MIN <= c * self.x <= i64::MAX,
            i64::MIN <= c * self.y <= i64::MAX,
        ensures
            r.x == c * self.x,
            r.y == c * self.y,
    {
        Vector::new(c * self.x, c * self.y)
    }
}

/// Swapping the operands of a cross product negates it.
pub proof fn lemma_cross_antisymmetric(u: Vector, v: Vector)
    ensures
        u.cross_spec(v) == -v.cross_spec(u),
{
    assert(u.x * v.y == v.y * u.x) by (nonlinear_arith);
    assert(u.y * v.x == v.x * u.y) by (nonlinear_arith);
}

/// A line `{p + t * v : t real}` through the point `p` along the direction `v`.
#[derive(Clone, Copy, Debug, PartialEq, Eq, Structural)]
pub struct Line {
    pub p: Point,
    pub v: Vector,
}

/// The exact rational number `num / den`, with `den` never zero.
#[derive(Clone, Copy, Debug, PartialEq, Eq, Structural)]
pub struct Param {
    pub num: i128,
    pub den: i128,
}

/// Whether `num / den` lies in the closed interval `[0, 1]`, for `den != 0`.
pub open spec fn within_unit(num: int, den: int) -> bool {
    if den > 0 {
        0 <= num <= den
    } else {
        den <= num <= 0
    }
}

impl Param {
    /// Whether the fraction lies in `[0, 1]`, compared without division.
    pub fn in_unit_interval(&self) -> (r: bool)
        requires
            self.den != 0,
        ensures
            r == within_unit(self.num as int, self.den as int),
    {
        if self.den > 0 {
            0 <= self.num && self.num <= self.den
        } else {
            self.den <= self.num && self.num <= 0
        }
    }
}

impl Line {
    pub fn new(p: Point, v: Vector) -> (r: Line)
        ensures
            r.p == p,
            r.v == v,
    {
        Line { p, v }
    }

    /// Whether the two directions are parallel (or one of them is zero).
    pub open spec fn parallel_to(self, other: Line) -> bool {
        self.v.cross_spec(other.v) == 0
    }

    /// The numerator of the parameter along `self` where it meets `other`: the cross
    /// product of `other.p - self.p` with `other.v`.
    pub open spec fn param_num(self, other: Line) -> int {
        det(other.p.x - self.p.x, other.p.y - self.p.y, other.v.x as int, other.v.y as int)
    }

    /// The parameter `t` at which `self.p + t * self.v` lies on `other`, as the exact
    /// fraction `cross(other.p - self.p, other.v) / cross(self.v, other.v)`; `None` where
    /// the two directions are parallel, so that no single crossing exists.
    pub fn intersection_param(&self, other: &Line) -> (r: Option<Param>)
        ensures
            r is None <==> self.parallel_to(*other),
            r matches Some(q) ==> q.num == self.param_num(*other) && q.den == self.v.cross_spec(
                other.v,
            ),
    {
        let cross = self.v.cross(&other.v);
        if cross == 0 {
            return None;
        }
        let num = other.p.sub(self.p).cross(&other.v);
        Some(Param { num, den: cross })
    }
}

} // verus!
