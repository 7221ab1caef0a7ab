use vstd::prelude::*;
use crate::geometry::{within_unit, Point};
use crate::polygon::Polygon;
use crate::segment::lemma_axis_parallel_meets;

verus! {

/// The side of the squares that `make_rect` builds.
pub const RECT_SIZE: i32 = 100;

/// The number of indices `k` with `i < k < j` such that `s[i]` overlaps `s[k]`.
pub open spec fn row_count(s: Seq<Polygon>, i: int, j: int) -> nat
    decreases j - i,
{
    if j <= i + 1 {
        0
    } else {
        row_count(s, i, j - 1) + if s[i].overlaps(s[j - 1]) {
            1nat
        } else {
            0nat
        }
    }
}

/// The number of pairs `a < b` with `a < i` and `b < s.len()` such that `s[a]` overlaps
/// `s[b]`.
pub open spec fn pairs_upto(s: Seq<Polygon>, i: int) -> nat
    decreases i,
{
    if i <= 0 {
        0
    } else {
        pairs_upto(s, i - 1) + row_count(s, i - 1, s.len() as int)
    }
}

/// The number of pairs `a < b` of indices of `s` such that `s[a]` overlaps `s[b]`.
pub open spec fn pair_count(s: Seq<Polygon>) -> nat {
    pairs_upto(s, s.len() as int)
}

proof fn lemma_row_count_bound(s: Seq<Polygon>, i: int, j: int)
    requires
        0 <= i,
        0 <= j,
    ensures
        row_count(s, i, j) <= j,
    decreases j - i,
{
    if j > i + 1 {
        lemma_row_count_bound(s, i, j - 1);
    }
}

proof fn lemma_pairs_upto_bound(s: Seq<Polygon>, i: int)
    requires
        0 <= i,
    ensures
        pairs_upto(s, i) <= i * s.len(),
    decreases i,
{
    if i > 0 {
        let n = s.len() as int;
        lemma_pairs_upto_bound(s, i - 1);
        lemma_row_count_bound(s, i - 1, n);
        assert((i - 1) * n + n == i * n) by (nonlinear_arith);
    }
}

/// The square of side `RECT_SIZE` whose corner is `(x, x)`.
pub fn make_rect(x: i32) -> (r: Polygon)
    requires
        x + RECT_SIZE <= i32::MAX,
    ensures
        r.points@ == Polygon::rect_corners(x, x, RECT_SIZE, RECT_SIZE),
{
    Polygon::new_rect(x, x, RECT_SIZE, RECT_SIZE)
}

/// The `n` squares of side `size` whose corners are `(k, k)` for `k` in `0..n`.
pub fn make_rects(n: i32, size: i32) -> (r: Vec<Polygon>)
    requires
        n <= 0 || n - 1 + size <= i32::MAX,
    ensures
        r@.len() == if n <= 0 {
            0
        } else {
            n as int
        },
        diagonal_squares(r@, size),
{
    let mut r: Vec<Polygon> = Vec::new();
    let mut k: i32 = 0;
    while k < n
        invariant
            0 <= k,
            n <= 0 || k <= n,
            n <= 0 ==> k == 0,
            n <= 0 || n - 1 + size <= i32::MAX,
            r@.len() == k,
            forall|a: int|
                0 <= a < r@.len() ==> (#[trigger] r@[a]).points@ == Polygon::rect_corners(
                    a as i32,
                    a as i32,
                    size,
                    size,
                ),
        decreases n - k,
    {
        r.push(Polygon::new_rect(k, k, size, size));
        k = k + 1;
    }
    r
}

/// Counts the pairs `a < b` of indices of `polys` whose polygons intersect, testing every
/// such pair once with `Polygon::intersects`.
pub fn count_intersecting_pairs(polys: &Vec<Polygon>) -> (r: u64)
    requires
        polys@.len() <= u32::MAX,
    ensures
        r == pair_count(polys@),
{
    let n = polys.len();
    let mut count: u64 = 0;
    let mut i: usize = 0;
    while i < n
        invariant
            i <= n,
            n == polys@.len(),
            n <= u32::MAX,
            count == pairs_upto(polys@, i as int),
        decreases n - i,
    {
        proof {
            lemma_pairs_upto_bound(polys@, i as int);
        }
        let mut j: usize = i + 1;
        while j < n
            invariant
                i < n,
                i + 1 <= j <= n,
                n == polys@.len(),
                n <= u32::MAX,
                pairs_upto(polys@, i as int) <= i * n,
                count == pairs_upto(polys@, i as int) + row_count(polys@, i as int, j as int),
            decreases n - j,
        {
            proof {
                lemma_row_count_bound(polys@, i as int, j as int);
                assert(i * n + n <= u32::MAX * u32::MAX) by (nonlinear_arith)
                    requires
                        i < n,
                        n <= u32::MAX,
                ;
            }
            if polys[i].intersects(&polys[j]) {
                count = count + 1;
            }
            j = j + 1;
        }
        i = i + 1;
    }
    count
}

proof fn lemma_square_edges(p: Polygon, a: i32, size: i32)
    requires
        size > 0,
        a + size <= i32::MAX,
        p.points@ == Polygon::rect_corners(a, a, size, size),
    ensures
        forall|i: int| 0 <= i < 4 ==> #[trigger] p.edge(i).is_vertical() || p.edge(i).is_horizontal(),
        p.edge(0).p1 == (Point { x: a, y: a }),
        p.edge(0).p2 == (Point { x: a, y: (a + size) as i32 }),
        p.edge(1).p1 == (Point { x: a, y: (a + size) as i32 }),
        p.edge(1).p2 == (Point { x: (a + size) as i32, y: (a + size) as i32 }),
        p.edge(3).p1 == (Point { x: (a + size) as i32, y: a }),
        p.edge(3).p2 == (Point { x: a, y: a }),
{
    assert forall|i: int| 0 <= i < 4 implies #[trigger] p.edge(i).is_vertical() || p.edge(
        i,
    ).is_horizontal() by {
        if i == 0 {
            assert((0 + 1) % 4 == 1);
        } else if i == 1 {
            assert((1 + 1) % 4 == 2);
        } else if i == 2 {
            assert((2 + 1) % 4 == 3);
        } else {
            assert((3 + 1) % 4 == 0);
        }
    }
    assert((0 + 1) % 4 == 1);
    assert((1 + 1) % 4 == 2);
    assert((3 + 1) % 4 == 0);
}

/// Two squares of side `size > 0` with corners `(a, a)` and `(b, b)` intersect exactly when
/// their offsets differ by at most `size`.
pub proof fn lemma_diagonal_squares_overlap(p: Polygon, q: Polygon, a: i32, b: i32, size: i32)
    requires
        size > 0,
        a + size <= i32::MAX,
        b + size <= i32::MAX,
        p.points@ == Polygon::rect_corners(a, a, size, size),
        q.points@ == Polygon::rect_corners(b, b, size, size),
    ensures
        p.overlaps(q) == (a - b <= size && b - a <= size),
{
    assert forall|i: int, j: int|
        0 <= i < 4 && 0 <= j < 4 && #[trigger] p.edge(i).meets(q.edge(j)) implies (a - b <= size
            && b - a <= size) by {
        lemma_square_edges(p, a, size);
        lemma_square_edges(q, b, size);
        lemma_axis_parallel_meets(p.edge(i), q.edge(j));
    }
    lemma_square_edges(p, a, size);
    lemma_square_edges(q, b, size);
    if 0 <= b - a <= size {
        lemma_axis_parallel_meets(p.edge(0), q.edge(3));
        assert(within_unit(b - a, size as int));
        assert(p.edge(0).meets(q.edge(3)));
    } else if 0 <= a - b <= size {
        lemma_axis_parallel_meets(p.edge(0), q.edge(1));
        assert(within_unit(b + size - a, size as int));
        assert(p.edge(0).meets(q.edge(1)));
    }
}

/// Every `s[k]` is the square of side `size` with corner `(k, k)`.
pub open spec fn diagonal_squares(s: Seq<Polygon>, size: i32) -> bool {
    forall|k: int|
        0 <= k < s.len() ==> (#[trigger] s[k]).points@ == Polygon::rect_corners(
            k as i32,
            k as i32,
            size,
            size,
        )
}

/// Twice the number of pairs `a < b < n` with `b - a <= size`, in closed form.
pub open spec fn diagonal_pairs_doubled(n: int, size: int) -> int {
    if n <= size + 1 {
        n * (n - 1)
    } else {
        size * (size + 1) + 2 * (n - size - 1) * size
    }
}

proof fn lemma_diagonal_pairs_step(m: int, size: int)
    requires
        m >= 1,
        size >= 0,
    ensures
        diagonal_pairs_doubled(m, size) == diagonal_pairs_doubled(m - 1, size) + 2 * if m - 1
            <= size {
            m - 1
        } else {
            size
        },
{
    if m <= size + 1 {
        assert(m * (m - 1) == (m - 1) * (m - 2) + 2 * (m - 1)) by (nonlinear_arith);
    } else if m == size + 2 {
        assert(2 * (m - size - 1) * size == 2 * size && (m - 1) * (m - 2) == size * (size + 1))
            by (nonlinear_arith)
            requires
                m == size + 2,
        ;
    } else {
        assert(2 * (m - size - 1) * size == 2 * (m - size - 2) * size + 2 * size)
            by (nonlinear_arith);
    }
}

proof fn lemma_diagonal_row(s: Seq<Polygon>, size: i32, i: int, j: int)
    requires
        diagonal_squares(s, size),
        size > 0,
        s.len() - 1 + size <= i32::MAX,
        0 <= i < j <= s.len(),
    ensures
        row_count(s, i, j) == if j - i - 1 <= size {
            j - i - 1
        } else {
            size as int
        },
    decreases j - i,
{
    if j > i + 1 {
        lemma_diagonal_row(s, size, i, j - 1);
        assert(s[i].points@ == Polygon::rect_corners(i as i32, i as i32, size, size));
        assert(s[j - 1].points@ == Polygon::rect_corners((j - 1) as i32, (j - 1) as i32, size, size));
        lemma_diagonal_squares_overlap(s[i], s[j - 1], i as i32, (j - 1) as i32, size);
    }
}

proof fn lemma_diagonal_pairs_upto(s: Seq<Polygon>, size: i32, i: int)
    requires
        diagonal_squares(s, size),
        size > 0,
        s.len() - 1 + size <= i32::MAX,
        0 <= i <= s.len(),
    ensures
        2 * pairs_upto(s, i) == diagonal_pairs_doubled(s.len() as int, size as int)
            - diagonal_pairs_doubled(s.len() - i, size as int),
    decreases i,
{
    if i > 0 {
        let n = s.len() as int;
        lemma_diagonal_pairs_upto(s, size, i - 1);
        lemma_diagonal_row(s, size, i - 1, n);
        lemma_diagonal_pairs_step(n - i + 1, size as int);
    }
}

/// The scan of `n` squares of side `size > 0` with corners `(k, k)` counts the pairs whose
/// offsets differ by at most `size`: `n (n - 1) / 2` of them while `n <= size + 1`, and
/// `size (size + 1) / 2 + (n - size - 1) size` beyond.
pub proof fn lemma_diagonal_square_count(s: Seq<Polygon>, size: i32)
    requires
        diagonal_squares(s, size),
        size > 0,
        s.len() - 1 + size <= i32::MAX,
    ensures
        2 * pair_count(s) == diagonal_pairs_doubled(s.len() as int, size as int),
{
    lemma_diagonal_pairs_upto(s, size, s.len() as int);
}

/// The count depends on nothing but the polygons' vertices: two inputs with the same
/// vertex lists give the same count.
pub proof fn lemma_count_deterministic(a: Seq<Polygon>, b: Seq<Polygon>)
    requires
        a.len() == b.len(),
        forall|k: int| 0 <= k < a.len() ==> (#[trigger] a[k]).points@ == b[k].points@,
    ensures
        pair_count(a) == pair_count(b),
{
    assert forall|x: int, y: int| 0 <= x < a.len() && 0 <= y < a.len() implies a[x].overlaps(
        a[y],
    ) == b[x].overlaps(b[y]) by {
        assert(a[x].points@ == b[x].points@);
        assert(a[y].points@ == b[y].points@);
        lemma_overlaps_by_vertices(a[x], a[y], b[x], b[y]);
    }
    lemma_pairs_upto_same(a, b, a.len() as int);
}

proof fn lemma_overlaps_by_vertices(p: Polygon, q: Polygon, p2: Polygon, q2: Polygon)
    requires
        p.points@ == p2.points@,
        q.points@ == q2.points@,
    ensures
        p.overlaps(q) == p2.overlaps(q2),
{
    assert forall|i: int, j: int| #[trigger] p.edge(i).meets(q.edge(j)) == p2.edge(i).meets(
        q2.edge(j),
    ) by {
        assert(p.edge(i) == p2.edge(i));
        assert(q.edge(j) == q2.edge(j));
    }
    if p.overlaps(q) {
        let (i, j) = choose|i: int, j: int|
            0 <= i < p.points@.len() && 0 <= j < q.points@.len() && #[trigger] p.edge(i).meets(
                q.edge(j),
            );
        assert(p2.edge(i).meets(q2.edge(j)));
    }
    if p2.overlaps(q2) {
        let (i, j) = choose|i: int, j: int|
            0 <= i < p2.points@.len() && 0 <= j < q2.points@.len() && #[trigger] p2.edge(i).meets(
                q2.edge(j),
            );
        assert(p.edge(i).meets(q.edge(j)));
    }
}

proof fn lemma_row_count_same(a: Seq<Polygon>, b: Seq<Polygon>, i: int, j: int)
    requires
        a.len() == b.len(),
        0 <= i < a.len(),
        j <= a.len(),
        forall|x: int, y: int|
            0 <= x < a.len() && 0 <= y < a.len() ==> #[trigger] a[x].overlaps(a[y]) == b[x].overlaps(
                b[y],
            ),
    ensures
        row_count(a, i, j) == row_count(b, i, j),
    decreases j - i,
{
    if j > i + 1 {
        lemma_row_count_same(a, b, i, j - 1);
    }
}

proof fn lemma_pairs_upto_same(a: Seq<Polygon>, b: Seq<Polygon>, i: int)
    requires
        a.len() == b.len(),
        i <= a.len(),
        forall|x: int, y: int|
            0 <= x < a.len() && 0 <= y < a.len() ==> #[trigger] a[x].overlaps(a[y]) == b[x].overlaps(
                b[y],
            ),
    ensures
        pairs_upto(a, i) == pairs_upto(b, i),
    decreases i,
{
    if i > 0 {
        lemma_pairs_upto_same(a, b, i - 1);
        lemma_row_count_same(a, b, i - 1, a.len() as int);
    }
}

} // verus!
