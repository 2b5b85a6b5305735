use vstd::prelude::*;
use crate::geom::{Point, Segment};
use vstd::arithmetic::div_mod::{lemma_div_basics, lemma_div_is_ordered_by_denominator, lemma_div_pos_is_pos};

verus! {

/// Largest coordinate magnitude the hatcher accepts; keeps every
/// intermediate product within `i64`.
pub const COORD_BOUND: i64 = 0x4000_0000;

pub open spec fn pt_in_bounds(p: Point) -> bool {
    -COORD_BOUND <= p.x <= COORD_BOUND && -COORD_BOUND <= p.y <= COORD_BOUND
}

/// A contour is a closed polygon given by its vertices in order; the edge
/// from the last vertex back to the first is implicit. Curved outline
/// segments are expected to be flattened into vertices by the caller.
pub open spec fn wf_contour(c: Seq<Point>) -> bool {
    c.len() >= 1 && forall|i: int| 0 <= i < c.len() ==> pt_in_bounds(#[trigger] c[i])
}

/// An outline is a set of closed contours; an empty outline has no contours.
pub open spec fn wf_outline(o: Seq<Vec<Point>>) -> bool {
    forall|i: int| 0 <= i < o.len() ==> wf_contour(#[trigger] o[i]@)
}

/// Division truncated toward zero, for a positive divisor.
pub open spec fn tdiv(n: int, d: int) -> int
    recommends
        d > 0,
{
    if n >= 0 {
        n / d
    } else {
        -((-n) / d)
    }
}

/// Whether the horizontal scan line at height `y` crosses the edge from `p`
/// to `q`. The endpoint with the lower `y` counts as on the edge and the one
/// with the higher `y` does not, so a vertex shared by two edges is counted
/// exactly once per contour side; horizontal edges never cross.
pub open spec fn edge_crosses(p: Point, q: Point, y: int) -> bool {
    (p.y <= y < q.y) || (q.y <= y < p.y)
}

/// Abscissa where the scan line at height `y` meets the edge from `p` to
/// `q`: linear interpolation, the offset from `p.x` truncated toward zero.
pub open spec fn cross_x(p: Point, q: Point, y: int) -> int
    recommends
        p.y != q.y,
{
    let num = (y - p.y) * (q.x - p.x);
    let den = q.y - p.y;
    if den > 0 {
        p.x + tdiv(num, den)
    } else {
        p.x + tdiv(-num, -den)
    }
}

/// Crossings of the scan line at height `y` with the first `n` edges of
/// contour `c`, in edge order; edge `i` runs from `c[i]` to its successor.
pub open spec fn contour_crossings_upto(c: Seq<Point>, y: int, n: int) -> Seq<i64>
    decreases n,
{
    if n <= 0 {
        Seq::empty()
    } else {
        let p = c[n - 1];
        let q = c[if n == c.len() as int { 0int } else { n }];
        contour_crossings_upto(c, y, n - 1) + (if edge_crosses(p, q, y) {
            seq![cross_x(p, q, y) as i64]
        } else {
            Seq::<i64>::empty()
        })
    }
}

pub open spec fn contour_crossings(c: Seq<Point>, y: int) -> Seq<i64> {
    contour_crossings_upto(c, y, c.len() as int)
}

/// Crossings of the scan line with the first `n` contours of the outline.
pub open spec fn outline_crossings_upto(o: Seq<Vec<Point>>, y: int, n: int) -> Seq<i64>
    decreases n,
{
    if n <= 0 {
        Seq::empty()
    } else {
        outline_crossings_upto(o, y, n - 1) + contour_crossings(o[n - 1]@, y)
    }
}

pub open spec fn outline_crossings(o: Seq<Vec<Point>>, y: int) -> Seq<i64> {
    outline_crossings_upto(o, y, o.len() as int)
}

/// Insert `x` into `s` just before the first element not below it.
pub open spec fn insert_sorted(x: i64, s: Seq<i64>) -> Seq<i64>
    decreases s.len(),
{
    if s.len() == 0 {
        seq![x]
    } else if x <= s[0] {
        seq![x] + s
    } else {
        seq![s[0]] + insert_sorted(x, s.drop_first())
    }
}

/// Sort by repeated insertion: the ascending rearrangement of `s`.
pub open spec fn sort_spec(s: Seq<i64>) -> Seq<i64>
    decreases s.len(),
{
    if s.len() == 0 {
        Seq::empty()
    } else {
        insert_sorted(s.last(), sort_spec(s.drop_last()))
    }
}

/// The recursive insertion adds exactly one instance of `x` and keeps an
/// ascending sequence ascending.
proof fn lemma_insert_sorted_ensures(x: i64, s: Seq<i64>)
    requires
        forall|i: int, j: int| 0 <= i < j < s.len() ==> s[i] <= s[j],
    ensures
        insert_sorted(x, s).len() == s.len() + 1,
        insert_sorted(x, s).to_multiset() == s.to_multiset().insert(x),
        forall|i: int, j: int|
            0 <= i < j < insert_sorted(x, s).len() ==> insert_sorted(x, s)[i] <= insert_sorted(
                x,
                s,
            )[j],
    decreases s.len(),
{
    broadcast use vstd::seq_lib::group_to_multiset_ensures;
    broadcast use vstd::multiset::group_multiset_axioms;

    if s.len() == 0 {
        assert(seq![x] =~= Seq::<i64>::empty().push(x));
        assert(insert_sorted(x, s).to_multiset() =~= s.to_multiset().insert(x));
    } else if x <= s[0] {
        vstd::seq_lib::lemma_multiset_commutative(seq![x], s);
        assert(seq![x] =~= Seq::<i64>::empty().push(x));
        assert(seq![x].to_multiset() =~= vstd::multiset::Multiset::<i64>::empty().insert(x));
        assert((seq![x] + s).to_multiset() =~= s.to_multiset().insert(x));
    } else {
        lemma_insert_sorted_ensures(x, s.drop_first());
        let t = insert_sorted(x, s.drop_first());
        vstd::seq_lib::lemma_multiset_commutative(seq![s[0]], t);
        vstd::seq_lib::lemma_multiset_commutative(seq![s[0]], s.drop_first());
        assert(s =~= seq![s[0]] + s.drop_first());
        assert((seq![s[0]] + t).to_multiset() =~= s.to_multiset().insert(x));
        assert forall|k: int| 0 <= k < t.len() implies s[0] <= t[k] by {
            assert(t.contains(t[k]));
            assert(t.to_multiset().count(t[k]) > 0);
            if t[k] != x {
                assert(s.drop_first().to_multiset().count(t[k]) > 0);
                assert(s.drop_first().contains(t[k]));
                let i = choose|i: int|
                    0 <= i < s.drop_first().len() && s.drop_first()[i] == t[k];
                assert(s[i + 1] == t[k]);
            }
        }
        assert forall|i: int, j: int|
            0 <= i < j < (seq![s[0]] + t).len() implies (seq![s[0]] + t)[i] <= (seq![s[0]]
            + t)[j] by {
            if i == 0 {
                assert((seq![s[0]] + t)[j] == t[j - 1]);
            }
        }
    }
}

/// Law: the sorting used on the crossings yields an ascending rearrangement:
/// the same abscissas with the same multiplicities, in ascending order. So
/// each hatch segment runs from an entry crossing to the exit crossing that
/// follows it.
pub proof fn lemma_sort_spec_ensures(s: Seq<i64>)
    ensures
        sort_spec(s).len() == s.len(),
        sort_spec(s).to_multiset() == s.to_multiset(),
        forall|i: int, j: int| 0 <= i < j < s.len() ==> sort_spec(s)[i] <= sort_spec(s)[j],
    decreases s.len(),
{
    broadcast use vstd::seq_lib::group_to_multiset_ensures;

    if s.len() > 0 {
        lemma_sort_spec_ensures(s.drop_last());
        lemma_insert_sorted_ensures(s.last(), sort_spec(s.drop_last()));
        assert(s =~= s.drop_last().push(s.last()));
        assert(sort_spec(s).to_multiset() =~= s.to_multiset());
    }
}

/// Division truncated toward zero, carried out on magnitudes.
fn div_trunc(num: i64, den: i64) -> (q: i64)
    requires
        den > 0,
        num > i64::MIN,
    ensures
        q as int == tdiv(num as int, den as int),
        num >= 0 ==> 0 <= q <= num,
        num < 0 ==> num <= q <= 0,
{
    if num >= 0 {
        let a = num as u64;
        let d = den as u64;
        let r = a / d;
        proof {
            lemma_div_pos_is_pos(a as int, d as int);
            lemma_div_is_ordered_by_denominator(a as int, 1, d as int);
            lemma_div_basics(a as int);
        }
        r as i64
    } else {
        let a = (-num) as u64;
        let d = den as u64;
        let r = a / d;
        proof {
            lemma_div_pos_is_pos(a as int, d as int);
            lemma_div_is_ordered_by_denominator(a as int, 1, d as int);
            lemma_div_basics(a as int);
        }
        -(r as i64)
    }
}

/// Abscissa where the scan line at height `y` meets the edge from `p` to `q`.
fn cross_x_exec(p: Point, q: Point, y: i64) -> (x: i64)
    requires
        pt_in_bounds(p),
        pt_in_bounds(q),
        -COORD_BOUND <= y <= COORD_BOUND,
        edge_crosses(p, q, y as int),
    ensures
        x as int == cross_x(p, q, y as int),
{
    let ydiff = y - p.y;
    let dx = q.x - p.x;
    proof {
        assert(-0x4000_0000_0000_0000 <= (ydiff as int) * (dx as int) <= 0x4000_0000_0000_0000)
            by (nonlinear_arith)
            requires
                -0x8000_0000 <= ydiff as int <= 0x8000_0000,
                -0x8000_0000 <= dx as int <= 0x8000_0000,
        ;
    }
    let num = ydiff * dx;
    let den = q.y - p.y;
    if den > 0 {
        let t = div_trunc(num, den);
        p.x + t
    } else {
        let t = div_trunc(-num, -den);
        p.x + t
    }
}

/// Proof that inserting positionally at the first index whose element is not
/// below `x` is the same as the recursive sorted insertion.
proof fn lemma_insert_sorted_at(s: Seq<i64>, x: i64, pos: int)
    requires
        0 <= pos <= s.len(),
        forall|k: int| 0 <= k < pos ==> s[k] < x,
        pos < s.len() ==> s[pos] >= x,
    ensures
        insert_sorted(x, s) == s.insert(pos, x),
    decreases s.len(),
{
    if pos == 0 {
        assert(insert_sorted(x, s) =~= s.insert(0, x));
    } else {
        assert(s[0] < x);
        lemma_insert_sorted_at(s.drop_first(), x, pos - 1);
        assert(seq![s[0]] + s.drop_first().insert(pos - 1, x) =~= s.insert(pos, x));
    }
}

/// Sort a vector of abscissas ascending by insertion.
fn sort_i64(xs: &Vec<i64>) -> (r: Vec<i64>)
    ensures
        r@ == sort_spec(xs@),
{
    let mut r: Vec<i64> = Vec::new();
    let mut i: usize = 0;
    while i < xs.len()
        invariant
            0 <= i <= xs@.len(),
            r@ == sort_spec(xs@.take(i as int)),
        decreases xs@.len() - i,
    {
        let x = xs[i];
        let mut pos: usize = 0;
        while pos < r.len() && r[pos] < x
            invariant
                0 <= pos <= r@.len(),
                forall|k: int| 0 <= k < pos ==> r@[k] < x,
            decreases r@.len() - pos,
        {
            pos = pos + 1;
        }
        r.insert(pos, x);
        proof {
            lemma_insert_sorted_at(sort_spec(xs@.take(i as int)), x, pos as int);
            assert(xs@.take(i + 1).drop_last() =~= xs@.take(i as int));
            assert(xs@.take(i + 1).last() == x);
        }
        i = i + 1;
    }
    proof {
        assert(xs@.take(xs@.len() as int) =~= xs@);
    }
    r
}

/// The first `k` of the sorted crossings `xs` joined in consecutive pairs:
/// each entry crossing and the exit crossing after it bound one horizontal
/// hatch segment at height `y`.
pub open spec fn pair_upto(xs: Seq<i64>, y: i64, k: int) -> Seq<Segment>
    decreases k,
{
    if k <= 0 {
        Seq::empty()
    } else {
        pair_upto(xs, y, k - 1).push(
            Segment {
                from: Point { x: xs[2 * (k - 1)], y: y },
                to: Point { x: xs[2 * (k - 1) + 1], y: y },
            },
        )
    }
}

/// All hatch segments of the scan line at height `y`: the crossings with
/// every contour, sorted ascending, then paired in order. A leftover odd
/// crossing (possible only at a degenerate vertex) yields no segment.
pub open spec fn scanline_segments(o: Seq<Vec<Point>>, y: i64) -> Seq<Segment> {
    let xs = sort_spec(outline_crossings(o, y as int));
    pair_upto(xs, y, (xs.len() / 2) as int)
}

/// Every consecutive pair of crossings yields exactly one segment.
pub proof fn lemma_pair_upto_len(xs: Seq<i64>, y: i64, k: int)
    requires
        k >= 0,
    ensures
        pair_upto(xs, y, k).len() == k,
    decreases k,
{
    if k > 0 {
        lemma_pair_upto_len(xs, y, k - 1);
    }
}

/// Index form of the pairing: the `i`-th segment joins crossings `2i` and
/// `2i + 1`.
proof fn lemma_pair_upto_index(xs: Seq<i64>, y: i64, k: int, i: int)
    requires
        0 <= i < k,
    ensures
        pair_upto(xs, y, k).len() == k,
        pair_upto(xs, y, k)[i] == (Segment {
            from: Point { x: xs[2 * i], y: y },
            to: Point { x: xs[2 * i + 1], y: y },
        }),
    decreases k,
{
    lemma_pair_upto_len(xs, y, k);
    if i < k - 1 {
        lemma_pair_upto_index(xs, y, k - 1, i);
    }
}

/// A horizontal segment running left to right at height `y`.
pub open spec fn horizontal_at(s: Segment, y: i64) -> bool {
    s.from.y == y && s.to.y == y && s.from.x <= s.to.x
}

/// Law: a scan line with `2m` or `2m + 1` crossings carries exactly `m`
/// segments, each lying at the scan height and running from a smaller to a
/// larger abscissa — an entry crossing to the exit crossing after it.
pub proof fn lemma_scanline_segments_ordered(o: Seq<Vec<Point>>, y: i64)
    ensures
        scanline_segments(o, y).len() == sort_spec(outline_crossings(o, y as int)).len() / 2,
        forall|i: int|
            0 <= i < scanline_segments(o, y).len() ==> horizontal_at(
                #[trigger] scanline_segments(o, y)[i],
                y,
            ),
{
    let cr = outline_crossings(o, y as int);
    let xs = sort_spec(cr);
    let k = (xs.len() / 2) as int;
    lemma_sort_spec_ensures(cr);
    lemma_pair_upto_len(xs, y, k);
    assert forall|i: int| 0 <= i < scanline_segments(o, y).len() implies horizontal_at(
        #[trigger] scanline_segments(o, y)[i],
        y,
    ) by {
        lemma_pair_upto_index(xs, y, k, i);
        vstd::arithmetic::div_mod::lemma_fundamental_div_mod(xs.len() as int, 2);
        vstd::arithmetic::div_mod::lemma_mod_pos_bound(xs.len() as int, 2);
        assert(2 * i + 1 < xs.len());
    }
}

/// Least `y` among the first `n` vertices of contour `c`.
pub open spec fn contour_min_y_upto(c: Seq<Point>, n: int) -> int
    decreases n,
{
    if n <= 1 {
        c[0].y as int
    } else {
        vstd::math::min(contour_min_y_upto(c, n - 1), c[n - 1].y as int)
    }
}

/// Greatest `y` among the first `n` vertices of contour `c`.
pub open spec fn contour_max_y_upto(c: Seq<Point>, n: int) -> int
    decreases n,
{
    if n <= 1 {
        c[0].y as int
    } else {
        vstd::math::max(contour_max_y_upto(c, n - 1), c[n - 1].y as int)
    }
}

/// Least vertex `y` among the first `n` contours of the outline.
pub open spec fn outline_min_y_upto(o: Seq<Vec<Point>>, n: int) -> int
    decreases n,
{
    if n <= 1 {
        contour_min_y_upto(o[0]@, o[0]@.len() as int)
    } else {
        vstd::math::min(
            outline_min_y_upto(o, n - 1),
            contour_min_y_upto(o[n - 1]@, o[n - 1]@.len() as int),
        )
    }
}

/// Greatest vertex `y` among the first `n` contours of the outline.
pub open spec fn outline_max_y_upto(o: Seq<Vec<Point>>, n: int) -> int
    decreases n,
{
    if n <= 1 {
        contour_max_y_upto(o[0]@, o[0]@.len() as int)
    } else {
        vstd::math::max(
            outline_max_y_upto(o, n - 1),
            contour_max_y_upto(o[n - 1]@, o[n - 1]@.len() as int),
        )
    }
}

pub open spec fn outline_min_y(o: Seq<Vec<Point>>) -> int {
    outline_min_y_upto(o, o.len() as int)
}

pub open spec fn outline_max_y(o: Seq<Vec<Point>>) -> int {
    outline_max_y_upto(o, o.len() as int)
}

/// The lowest multiple of `interval` at or above `min`: the height of the
/// first scan line.
pub open spec fn first_scan(min: int, interval: int) -> int
    recommends
        interval > 0,
{
    if min >= 0 {
        ((min + interval - 1) / interval) * interval
    } else {
        -(((-min) / interval) * interval)
    }
}

/// How many scan lines spaced `interval` apart fit between `lo` and `hi`.
pub open spec fn scan_count(lo: int, hi: int, interval: int) -> int {
    if hi >= lo {
        (hi - lo) / interval + 1
    } else {
        0
    }
}

/// Concatenated hatch segments of the first `k` scan lines above `lo`.
pub open spec fn scans_upto(o: Seq<Vec<Point>>, lo: int, interval: int, k: int) -> Seq<Segment>
    decreases k,
{
    if k <= 0 {
        Seq::empty()
    } else {
        scans_upto(o, lo, interval, k - 1) + scanline_segments(o, (lo + (k - 1) * interval) as i64)
    }
}

/// The hatching of a closed outline: one scan line at every multiple of
/// `interval` between the outline's lowest and highest vertex, each clipped
/// to the filled interior by pairing its sorted crossings. An empty outline
/// hatches to the empty sequence.
pub open spec fn spec_hatch(o: Seq<Vec<Point>>, interval: int) -> Seq<Segment> {
    if o.len() == 0 {
        Seq::empty()
    } else {
        let lo = first_scan(outline_min_y(o), interval);
        scans_upto(o, lo, interval, scan_count(lo, outline_max_y(o), interval))
    }
}

/// Every segment of the first `k` scan lines is horizontal and ordered.
proof fn lemma_scans_upto_horizontal(o: Seq<Vec<Point>>, lo: int, interval: int, k: int)
    ensures
        forall|i: int|
            0 <= i < scans_upto(o, lo, interval, k).len() ==> (#[trigger] scans_upto(
                o,
                lo,
                interval,
                k,
            )[i]).from.y == scans_upto(o, lo, interval, k)[i].to.y && scans_upto(
                o,
                lo,
                interval,
                k,
            )[i].from.x <= scans_upto(o, lo, interval, k)[i].to.x,
    decreases k,
{
    if k > 0 {
        let prev = scans_upto(o, lo, interval, k - 1);
        let y = (lo + (k - 1) * interval) as i64;
        let line = scanline_segments(o, y);
        lemma_scans_upto_horizontal(o, lo, interval, k - 1);
        lemma_scanline_segments_ordered(o, y);
        assert forall|i: int|
            0 <= i < scans_upto(o, lo, interval, k).len() implies (#[trigger] scans_upto(
            o,
            lo,
            interval,
            k,
        )[i]).from.y == scans_upto(o, lo, interval, k)[i].to.y && scans_upto(
            o,
            lo,
            interval,
            k,
        )[i].from.x <= scans_upto(o, lo, interval, k)[i].to.x by {
            if i < prev.len() {
                assert(scans_upto(o, lo, interval, k)[i] == prev[i]);
            } else {
                assert(scans_upto(o, lo, interval, k)[i] == line[i - prev.len()]);
                assert(horizontal_at(line[i - prev.len()], y));
            }
        }
    }
}

/// Law: every segment the hatcher emits is horizontal and runs left to
/// right — parallel hatch lines clipped to the outline's interior.
pub proof fn lemma_hatch_horizontal(o: Seq<Vec<Point>>, interval: int)
    ensures
        forall|i: int|
            0 <= i < spec_hatch(o, interval).len() ==> (#[trigger] spec_hatch(o, interval)[i]).from.y
                == spec_hatch(o, interval)[i].to.y && spec_hatch(o, interval)[i].from.x
                <= spec_hatch(o, interval)[i].to.x,
{
    if o.len() > 0 {
        let lo = first_scan(outline_min_y(o), interval);
        lemma_scans_upto_horizontal(o, lo, interval, scan_count(lo, outline_max_y(o), interval));
    }
}

/// Length of a horizontal hatch segment: the span between its abscissas.
pub open spec fn segment_length(s: Segment) -> nat {
    vstd::math::abs(s.to.x - s.from.x)
}

/// Total length of a sequence of horizontal segments.
pub open spec fn total_length(segs: Seq<Segment>) -> nat
    decreases segs.len(),
{
    if segs.len() == 0 {
        0
    } else {
        total_length(segs.drop_last()) + segment_length(segs.last())
    }
}

/// Law: hatching is a pure function of the outline geometry and the
/// interval. Any two results of hatching the same outline at the same
/// interval are the same segment sequence, so in particular the segment
/// count and the total hatched length do not depend on how often, or when,
/// the hatcher ran.
pub proof fn lemma_hatch_deterministic(
    o: Seq<Vec<Point>>,
    interval: int,
    r1: Seq<Segment>,
    r2: Seq<Segment>,
)
    requires
        r1 == spec_hatch(o, interval),
        r2 == spec_hatch(o, interval),
    ensures
        r1 == r2,
        r1.len() == r2.len(),
        total_length(r1) == total_length(r2),
{
}

/// Append the crossings of the scan line at height `y` with contour `c`.
fn contour_crossings_exec(c: &Vec<Point>, y: i64, out: &mut Vec<i64>)
    requires
        wf_contour(c@),
        -COORD_BOUND <= y <= COORD_BOUND,
    ensures
        final(out)@ == old(out)@ + contour_crossings(c@, y as int),
{
    let ghost out0 = out@;
    let n = c.len();
    let mut i: usize = 0;
    while i < n
        invariant
            n == c@.len(),
            0 <= i <= n,
            wf_contour(c@),
            -COORD_BOUND <= y <= COORD_BOUND,
            out@ == out0 + contour_crossings_upto(c@, y as int, i as int),
        decreases n - i,
    {
        let p = c[i];
        let qi = if i + 1 == n {
            0
        } else {
            i + 1
        };
        let q = c[qi];
        if (p.y <= y && y < q.y) || (q.y <= y && y < p.y) {
            let x = cross_x_exec(p, q, y);
            out.push(x);
        }
        i = i + 1;
        proof {
            assert(out@ =~= out0 + contour_crossings_upto(c@, y as int, i as int));
        }
    }
    proof {
        assert(out@ =~= out0 + contour_crossings(c@, y as int));
    }
}

/// Compute the hatch segments of the scan line at height `y`.
fn scanline_segments_exec(outline: &Vec<Vec<Point>>, y: i64) -> (segs: Vec<Segment>)
    requires
        wf_outline(outline@),
        -COORD_BOUND <= y <= COORD_BOUND,
    ensures
        segs@ == scanline_segments(outline@, y),
{
    let mut xs: Vec<i64> = Vec::new();
    let mut ci: usize = 0;
    while ci < outline.len()
        invariant
            0 <= ci <= outline@.len(),
            wf_outline(outline@),
            -COORD_BOUND <= y <= COORD_BOUND,
            xs@ == outline_crossings_upto(outline@, y as int, ci as int),
        decreases outline@.len() - ci,
    {
        contour_crossings_exec(&outline[ci], y, &mut xs);
        ci = ci + 1;
        proof {
            assert(xs@ =~= outline_crossings_upto(outline@, y as int, ci as int));
        }
    }
    let sorted = sort_i64(&xs);
    let npairs = sorted.len() / 2;
    let mut segs: Vec<Segment> = Vec::new();
    let mut j: usize = 0;
    while j < npairs
        invariant
            0 <= j <= npairs,
            npairs == sorted@.len() / 2,
            sorted@.len() <= usize::MAX,
            segs@ == pair_upto(sorted@, y, j as int),
        decreases npairs - j,
    {
        proof {
            let l = sorted@.len() as int;
            vstd::arithmetic::div_mod::lemma_fundamental_div_mod(l, 2);
            vstd::arithmetic::div_mod::lemma_mod_pos_bound(l, 2);
            assert(2 * (j as int) + 1 < l);
        }
        let a = sorted[2 * j];
        let b = sorted[2 * j + 1];
        segs.push(Segment { from: Point { x: a, y: y }, to: Point { x: b, y: y } });
        j = j + 1;
    }
    segs
}

/// Least and greatest vertex `y` of contour `c`.
fn contour_min_max_y(c: &Vec<Point>) -> (mm: (i64, i64))
    requires
        wf_contour(c@),
    ensures
        mm.0 as int == contour_min_y_upto(c@, c@.len() as int),
        mm.1 as int == contour_max_y_upto(c@, c@.len() as int),
{
    let mut lo = c[0].y;
    let mut hi = c[0].y;
    let mut i: usize = 1;
    while i < c.len()
        invariant
            1 <= i <= c@.len(),
            wf_contour(c@),
            lo as int == contour_min_y_upto(c@, i as int),
            hi as int == contour_max_y_upto(c@, i as int),
        decreases c@.len() - i,
    {
        let v = c[i].y;
        if v < lo {
            lo = v;
        }
        if v > hi {
            hi = v;
        }
        i = i + 1;
    }
    (lo, hi)
}

/// The height of the first scan line: the lowest multiple of `interval` at
/// or above `min`.
fn first_scan_exec(min: i64, interval: i64) -> (s: i64)
    requires
        -COORD_BOUND <= min <= COORD_BOUND,
        1 <= interval <= COORD_BOUND,
    ensures
        s as int == first_scan(min as int, interval as int),
        min <= s,
        s as int <= min + interval,
{
    if min >= 0 {
        let a = (min + interval - 1) as u64;
        let d = interval as u64;
        let q = a / d;
        proof {
            vstd::arithmetic::div_mod::lemma_fundamental_div_mod(a as int, d as int);
            vstd::arithmetic::mul::lemma_mul_is_commutative(a as int / d as int, d as int);
            vstd::arithmetic::div_mod::lemma_mod_division_less_than_divisor(a as int, d as int);
            lemma_div_pos_is_pos(a as int, d as int);
        }
        let s = q * d;
        s as i64
    } else {
        let a = (-min) as u64;
        let d = interval as u64;
        let q = a / d;
        proof {
            vstd::arithmetic::div_mod::lemma_fundamental_div_mod(a as int, d as int);
            vstd::arithmetic::mul::lemma_mul_is_commutative(a as int / d as int, d as int);
            vstd::arithmetic::div_mod::lemma_mod_division_less_than_divisor(a as int, d as int);
            lemma_div_pos_is_pos(a as int, d as int);
        }
        let s = q * d;
        -(s as i64)
    }
}

/// Hatch a closed outline: produce one horizontal segment for every
/// entry/exit crossing pair of every scan line, scan lines lying at the
/// multiples of `interval` that meet the outline's vertical extent.
///
/// The result is a pure function of the outline and the interval alone.
pub fn hatch_path(outline: &Vec<Vec<Point>>, interval: i64) -> (segs: Vec<Segment>)
    requires
        wf_outline(outline@),
        1 <= interval <= COORD_BOUND,
    ensures
        segs@ == spec_hatch(outline@, interval as int),
{
    if outline.len() == 0 {
        let segs: Vec<Segment> = Vec::new();
        return segs;
    }
    let first = contour_min_max_y(&outline[0]);
    let mut min_y = first.0;
    let mut max_y = first.1;
    let mut ci: usize = 1;
    while ci < outline.len()
        invariant
            1 <= ci <= outline@.len(),
            wf_outline(outline@),
            outline@.len() >= 1,
            min_y as int == outline_min_y_upto(outline@, ci as int),
            max_y as int == outline_max_y_upto(outline@, ci as int),
        decreases outline@.len() - ci,
    {
        let mm = contour_min_max_y(&outline[ci]);
        if mm.0 < min_y {
            min_y = mm.0;
        }
        if mm.1 > max_y {
            max_y = mm.1;
        }
        ci = ci + 1;
    }
    proof {
        lemma_outline_extent_in_bounds(outline@);
    }
    let lo = first_scan_exec(min_y, interval);
    let n_scans: u64 = if max_y >= lo {
        ((max_y - lo) as u64) / (interval as u64) + 1
    } else {
        0
    };
    assert(n_scans as int == scan_count(lo as int, max_y as int, interval as int));
    let mut segs: Vec<Segment> = Vec::new();
    let mut k: u64 = 0;
    while k < n_scans
        invariant
            0 <= k <= n_scans,
            wf_outline(outline@),
            outline@.len() >= 1,
            lo as int == first_scan(outline_min_y(outline@), interval as int),
            -COORD_BOUND <= outline_min_y(outline@) <= COORD_BOUND,
            lo as int >= outline_min_y(outline@),
            -COORD_BOUND <= max_y <= COORD_BOUND,
            max_y as int == outline_max_y(outline@),
            1 <= interval <= COORD_BOUND,
            n_scans as int == scan_count(lo as int, max_y as int, interval as int),
            segs@ == scans_upto(outline@, lo as int, interval as int, k as int),
        decreases n_scans - k,
    {
        proof {
            vstd::arithmetic::mul::lemma_mul_nonnegative(k as int, interval as int);
            vstd::arithmetic::mul::lemma_mul_inequality(
                k as int,
                (max_y - lo) as int / (interval as int),
                interval as int,
            );
            vstd::arithmetic::div_mod::lemma_fundamental_div_mod(
                (max_y - lo) as int,
                interval as int,
            );
            vstd::arithmetic::mul::lemma_mul_is_commutative(
                (max_y - lo) as int / (interval as int),
                interval as int,
            );
            vstd::arithmetic::div_mod::lemma_mod_division_less_than_divisor(
                (max_y - lo) as int,
                interval as int,
            );
        }
        let y = lo + (k as i64) * interval;
        let mut line = scanline_segments_exec(outline, y);
        segs.append(&mut line);
        k = k + 1;
        proof {
            assert(segs@ =~= scans_upto(outline@, lo as int, interval as int, k as int));
        }
    }
    segs
}

/// The outline's vertical extent stays within the coordinate bound.
proof fn lemma_contour_extent_in_bounds(c: Seq<Point>, n: int)
    requires
        wf_contour(c),
        1 <= n <= c.len(),
    ensures
        -COORD_BOUND <= contour_min_y_upto(c, n) <= COORD_BOUND,
        -COORD_BOUND <= contour_max_y_upto(c, n) <= COORD_BOUND,
        contour_min_y_upto(c, n) <= contour_max_y_upto(c, n),
    decreases n,
{
    if n > 1 {
        lemma_contour_extent_in_bounds(c, n - 1);
    }
}

/// The outline's least vertex height is within the coordinate bound and at
/// most its greatest.
proof fn lemma_outline_extent_in_bounds_upto(o: Seq<Vec<Point>>, n: int)
    requires
        wf_outline(o),
        1 <= n <= o.len(),
    ensures
        -COORD_BOUND <= outline_min_y_upto(o, n) <= COORD_BOUND,
        -COORD_BOUND <= outline_max_y_upto(o, n) <= COORD_BOUND,
        outline_min_y_upto(o, n) <= outline_max_y_upto(o, n),
    decreases n,
{
    if n > 1 {
        lemma_outline_extent_in_bounds_upto(o, n - 1);
        lemma_contour_extent_in_bounds(o[n - 1]@, o[n - 1]@.len() as int);
    } else {
        lemma_contour_extent_in_bounds(o[0]@, o[0]@.len() as int);
    }
}

proof fn lemma_outline_extent_in_bounds(o: Seq<Vec<Point>>)
    requires
        wf_outline(o),
        o.len() >= 1,
    ensures
        -COORD_BOUND <= outline_min_y(o) <= COORD_BOUND,
        -COORD_BOUND <= outline_max_y(o) <= COORD_BOUND,
        outline_min_y(o) <= outline_max_y(o),
{
    lemma_outline_extent_in_bounds_upto(o, o.len() as int);
}

} // verus!
