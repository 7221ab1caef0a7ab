use vstd::prelude::*;
use crate::geometry::Point;
use crate::segment::Segment;

verus! {

/// A closed polygon: edge `i` joins vertex `i` to vertex `(i + 1) % n`.
#[derive(Debug)]
pub struct Polygon {
    pub points: Vec<Point>,
}

impl Polygon {
    /// The corners of the axis-aligned rectangle with corner `(left, top)` and the given
    /// size: `(left, top)`, `(left, top + height)`, `(left + width, top + height)`,
    /// `(left + width, top)`.
    pub open spec fn rect_corners(left: i32, top: i32, width: i32, height: i32) -> Seq<Point> {
        seq![
            Point { x: left, y: top },
            Point { x: left, y: (top + height) as i32 },
            Point { x: (left + width) as i32, y: (top + height) as i32 },
            Point { x: (left + width) as i32, y: top },
        ]
    }

    /// Edge `i`, from vertex `i` to the next vertex, wrapping around to the first.
    pub open spec fn edge(self, i: int) -> Segment {
        let n = self.points@.len() as int;
        Segment { p1: self.points@[i], p2: self.points@[(i + 1) % n] }
    }

    /// Whether some edge of `self` meets some edge of `other` (see `Segment::meets`).
    pub open spec fn overlaps(self, other: Polygon) -> bool {
        exists|i: int, j: int|
            0 <= i < self.points@.len() && 0 <= j < other.points@.len()
                && #[trigger] self.edge(i).meets(other.edge(j))
    }

    /// The polygon with the given vertices, in order.
    pub fn new(points: Vec<Point>) -> (r: Polygon)
        ensures
            r.points@ == points@,
    {
        Polygon { points }
    }

    /// The axis-aligned rectangle with corner `(left, top)` and the given size, its corners
    /// in the order `(left, top)`, `(left, bottom)`, `(right, bottom)`, `(right, top)`.
    pub fn new_rect(left: i32, top: i32, width: i32, height: i32) -> (r: Polygon)
        requires
            i32::MIN <= left + width <= i32::MAX,
            i32::MIN <= top + height <= i32::MAX,
        ensures
            r.points@ == Polygon::rect_corners(left, top, width, height),
    {
        let bottom = top + height;
        let right = left + width;
        let points = vec![
            Point::new(left, top),
            Point::new(left, bottom),
            Point::new(right, bottom),
            Point::new(right, top),
        ];
        Polygon { points }
    }

    /// Edge `i` of the polygon.
    pub fn segment(&self, i: usize) -> (r: Segment)
        requires
            i < self.points@.len(),
        ensures
            r == self.edge(i as int),
    {
        let n = self.points.len();
        Segment::new(self.points[i], self.points[(i + 1) % n])
    }

    /// Whether some edge of `self` meets some edge of `other`, testing the pairs of edges
    /// in order and stopping at the first that meets.
    pub fn intersects(&self, other: &Polygon) -> (r: bool)
        ensures
            r == self.overlaps(*other),
    {
        let n1 = self.points.len();
        let n2 = other.points.len();
        for i in 0..n1
            invariant
                n1 == self.points@.len(),
                n2 == other.points@.len(),
                forall|a: int, b: int|
                    0 <= a < i && 0 <= b < n2 ==> !#[trigger] self.edge(a).meets(other.edge(b)),
        {
            let s1 = self.segment(i);
            for j in 0..n2
                invariant
                    n1 == self.points@.len(),
                    n2 == other.points@.len(),
                    i < n1,
                    s1 == self.edge(i as int),
                    forall|a: int, b: int|
                        0 <= a < i && 0 <= b < n2 ==> !#[trigger] self.edge(a).meets(
                            other.edge(b),
                        ),
                    forall|b: int| 0 <= b < j ==> !#[trigger] s1.meets(other.edge(b)),
            {
                let s2 = other.segment(j);
                if s1.intersects(&s2) {
                    assert(self.edge(i as int).meets(other.edge(j as int)));
                    return true;
                }
            }
        }
        false
    }
}

} // verus!
