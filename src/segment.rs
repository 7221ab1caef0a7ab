use vstd::prelude::*;
use crate::geometry::{within_unit, Line, Point, Vector};

verus! {

/// The closed segment between two endpoints.
#[derive(Clone, Copy, Debug, PartialEq, Eq, Structural)]
pub struct Segment {
    pub p1: Point,
    pub p2: Point,
}

impl Segment {
    pub fn new(p1: Point, p2: Point) -> (r: Segment)
        ensures
            r.p1 == p1,
            r.p2 == p2,
    {
        Segment { p1, p2 }
    }

    /// The line through `p1` along `p2 - p1`: parameter 0 is `p1` and parameter 1 is `p2`.
    pub open spec fn line_spec(self) -> Line {
        Line {
            p: self.p1,
            v: Vector { x: (self.p2.x - self.p1.x) as i64, y: (self.p2.y - self.p1.y) as i64 },
        }
    }

    /// Whether the line of `other` crosses this segment at a single point: the two
    /// directions are not parallel, and the crossing lies between `p1` and `p2`.
    /// Only this segment bounds the crossing; `other` counts as its whole line.
    pub open spec fn meets(self, other: Segment) -> bool {
        let l1 = self.line_spec();
        let l2 = other.line_spec();
        !l1.parallel_to(l2) && within_unit(l1.param_num(l2), l1.v.cross_spec(l2.v))
    }

    pub fn as_line(&self) -> (r: Line)
        ensures
            r == self.line_spec(),
    {
        Line::new(self.p1, self.p2.sub(self.p1))
    }

    /// The squared distance between the endpoints.
    pub fn length_squared(&self) -> (r: u128)
        ensures
            r == self.line_spec().v.length_squared_spec(),
    {
        self.p2.sub(self.p1).length_squared()
    }

    /// The segment runs parallel to the y axis and has distinct endpoints.
    pub open spec fn is_vertical(self) -> bool {
        self.p1.x == self.p2.x && self.p1.y != self.p2.y
    }

    /// The segment runs parallel to the x axis and has distinct endpoints.
    pub open spec fn is_horizontal(self) -> bool {
        self.p1.y == self.p2.y && self.p1.x != self.p2.x
    }

    /// Whether this segment meets the line of `other` (see `meets`). A segment whose
    /// endpoints coincide meets nothing, and nothing meets it.
    pub fn intersects(&self, other: &Segment) -> (r: bool)
        ensures
            r == self.meets(*other),
    {
        let l1 = self.as_line();
        let l2 = other.as_line();
        match l1.intersection_param(&l2) {
            Some(q) => q.in_unit_interval(),
            None => false,
        }
    }
}

/// A segment's line is parallel to itself, so the parameter of its line against itself is
/// `None`, and a segment never meets itself.
pub proof fn lemma_line_parallel_to_itself(s: Segment)
    ensures
        s.line_spec().parallel_to(s.line_spec()),
        !s.meets(s),
{
    let v = s.line_spec().v;
    assert(v.x * v.y == v.y * v.x) by (nonlinear_arith);
}

/// Two horizontal segments never meet: their directions are parallel.
pub proof fn lemma_horizontal_segments_never_meet(s: Segment, t: Segment)
    requires
        s.p1.y == s.p2.y,
        t.p1.y == t.p2.y,
        s.p1.y != t.p1.y,
    ensures
        !s.meets(t),
        !t.meets(s),
{
    let (v, w) = (s.line_spec().v, t.line_spec().v);
    assert(v.y == 0 && w.y == 0);
    assert(v.x * w.y == 0 && v.y * w.x == 0 && w.x * v.y == 0 && w.y * v.x == 0)
        by (nonlinear_arith)
        requires
            v.y == 0,
            w.y == 0,
    ;
}

proof fn lemma_scaled_within_unit(e: int, d: int, c: int)
    requires
        c != 0,
        d != 0,
    ensures
        within_unit(e * c, d * c) == within_unit(e, d),
{
    if c > 0 {
        assert((0 <= e * c <= d * c) == (0 <= e <= d)) by (nonlinear_arith)
            requires
                c > 0,
        ;
        assert((d * c <= e * c <= 0) == (d <= e <= 0)) by (nonlinear_arith)
            requires
                c > 0,
        ;
        assert((d * c > 0) == (d > 0)) by (nonlinear_arith)
            requires
                c > 0,
        ;
    } else {
        assert((0 <= e * c <= d * c) == (d <= e <= 0)) by (nonlinear_arith)
            requires
                c < 0,
        ;
        assert((d * c <= e * c <= 0) == (0 <= e <= d)) by (nonlinear_arith)
            requires
                c < 0,
        ;
        assert((d * c > 0) == (d < 0)) by (nonlinear_arith)
            requires
                c < 0,
        ;
    }
}

/// When two axis-parallel segments are perpendicular, `s` meets the line of `t` exactly
/// when that line's coordinate lies between the endpoints of `s`; parallel ones never meet.
pub proof fn lemma_axis_parallel_meets(s: Segment, t: Segment)
    requires
        s.is_vertical() || s.is_horizontal(),
        t.is_vertical() || t.is_horizontal(),
    ensures
        s.meets(t) == if s.is_vertical() && t.is_horizontal() {
            within_unit(t.p1.y - s.p1.y, s.p2.y - s.p1.y)
        } else if s.is_horizontal() && t.is_vertical() {
            within_unit(t.p1.x - s.p1.x, s.p2.x - s.p1.x)
        } else {
            false
        },
{
    let (v, w) = (s.line_spec().v, t.line_spec().v);
    let (ex, ey) = (t.p1.x - s.p1.x, t.p1.y - s.p1.y);
    if s.is_vertical() && t.is_horizontal() {
        assert(v.x == 0 && w.y == 0);
        assert(v.x * w.y - v.y * w.x == v.y * (-w.x) && ex * w.y - ey * w.x == ey * (-w.x))
            by (nonlinear_arith)
            requires
                v.x == 0,
                w.y == 0,
        ;
        assert(v.y * (-w.x) != 0) by (nonlinear_arith)
            requires
                v.y != 0,
                w.x != 0,
        ;
        lemma_scaled_within_unit(ey, v.y as int, -w.x);
    } else if s.is_horizontal() && t.is_vertical() {
        assert(v.y == 0 && w.x == 0);
        assert(v.x * w.y - v.y * w.x == v.x * w.y && ex * w.y - ey * w.x == ex * w.y)
            by (nonlinear_arith)
            requires
                v.y == 0,
                w.x == 0,
        ;
        assert(v.x * w.y != 0) by (nonlinear_arith)
            requires
                v.x != 0,
                w.y != 0,
        ;
        lemma_scaled_within_unit(ex, v.x as int, w.y as int);
    } else if s.is_vertical() {
        assert(v.x * w.y - v.y * w.x == 0) by (nonlinear_arith)
            requires
                v.x == 0,
                w.x == 0,
        ;
    } else {
        assert(v.x * w.y - v.y * w.x == 0) by (nonlinear_arith)
            requires
                v.y == 0,
                w.y == 0,
        ;
    }
}

/// A segment whose endpoints coincide meets no segment, and no segment meets it.
pub proof fn lemma_degenerate_segment(s: Segment, t: Segment)
    requires
        s.p1 == s.p2,
    ensures
        !s.meets(t),
        !t.meets(s),
{
    let (v, w) = (s.line_spec().v, t.line_spec().v);
    assert(v.x == 0 && v.y == 0);
    assert(v.x * w.y == 0 && v.y * w.x == 0 && w.x * v.y == 0 && w.y * v.x == 0)
        by (nonlinear_arith)
        requires
            v.x == 0,
            v.y == 0,
    ;
}

} // verus!
