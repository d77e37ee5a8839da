//! The geometry builder: from pairs of band descriptors to closed vertex
//! loops, and the vertical mirror used for display.

use vstd::prelude::*;

verus! {

/// A 2D point with integer coordinates.
#[derive(Clone, Copy, Debug, PartialEq, Eq, Structural)]
pub struct Point {
    pub x: i64,
    pub y: i64,
}

impl View for Point {
    type V = (int, int);

    open spec fn view(&self) -> (int, int) {
        (self.x as int, self.y as int)
    }
}

/// A band descriptor: an anchor point and a vertical extent.
///
/// No ordering or sign constraint is placed on the fields; a zero or negative
/// height is accepted and simply yields a degenerate polygon.
#[derive(Clone, Copy, Debug, PartialEq, Eq, Structural)]
pub struct SpanCord {
    pub anchor: Point,
    pub height: i64,
}

impl View for SpanCord {
    type V = ((int, int), int);

    open spec fn view(&self) -> ((int, int), int) {
        (self.anchor@, self.height as int)
    }
}

/// The mathematical image of a vertex sequence.
pub open spec fn loop_view(pts: Seq<Point>) -> Seq<(int, int)> {
    pts.map(|i: int, p: Point| p@)
}

/// The mathematical image of a band sequence.
pub open spec fn bands_view(bands: Seq<SpanCord>) -> Seq<((int, int), int)> {
    bands.map(|i: int, b: SpanCord| b@)
}

/// The anchor's y plus the height stays within the machine range.
pub open spec fn band_fits(b: ((int, int), int)) -> bool {
    i64::MIN <= b.0.1 + b.1 <= i64::MAX
}

/// Strengthens `band_fits`: the anchor's y and the band's base both stay
/// strictly above the smallest machine value, so their negations fit too.
pub open spec fn band_mirror_fits(b: ((int, int), int)) -> bool {
    &&& band_fits(b)
    &&& b.0.1 > i64::MIN
    &&& b.0.1 + b.1 > i64::MIN
}

/// The nine vertices of the closed loop that stitches `upper` to `lower`:
/// the two anchors, the right edge at `group_width`, the two base corners,
/// and the left edge at x == 0, with the first vertex repeated at the end.
pub open spec fn loop_points(
    upper: ((int, int), int),
    lower: ((int, int), int),
    group_width: int,
) -> Seq<(int, int)> {
    seq![
        upper.0,
        (group_width, upper.0.1),
        (group_width, lower.0.1),
        lower.0,
        (lower.0.0, lower.0.1 + lower.1),
        (0int, lower.0.1 + lower.1),
        (0int, upper.0.1 + upper.1),
        (upper.0.0, upper.0.1 + upper.1),
        upper.0,
    ]
}

/// Builds the closed vertex loop joining two band descriptors, with the
/// right edge at `group_width` (an absolute x-coordinate) and the left edge
/// on the y-axis.
pub fn build_loop(upper: &SpanCord, lower: &SpanCord, group_width: i64) -> (r: Vec<Point>)
    requires
        band_fits(upper@),
        band_fits(lower@),
    ensures
        loop_view(r@) == loop_points(upper@, lower@, group_width as int),
{
    let upper_base = upper.anchor.y + upper.height;
    let lower_base = lower.anchor.y + lower.height;
    let mut r: Vec<Point> = Vec::new();
    r.push(upper.anchor);
    r.push(Point { x: group_width, y: upper.anchor.y });
    r.push(Point { x: group_width, y: lower.anchor.y });
    r.push(lower.anchor);
    r.push(Point { x: lower.anchor.x, y: lower_base });
    r.push(Point { x: 0, y: lower_base });
    r.push(Point { x: 0, y: upper_base });
    r.push(Point { x: upper.anchor.x, y: upper_base });
    r.push(upper.anchor);
    proof {
        assert(loop_view(r@) =~= loop_points(upper@, lower@, group_width as int));
    }
    r
}

/// One loop per consecutive pair of bands, in order; a sequence of fewer
/// than two bands yields no loops.
pub open spec fn all_loops(bands: Seq<((int, int), int)>, group_width: int) -> Seq<
    Seq<(int, int)>,
> {
    if bands.len() < 2 {
        Seq::empty()
    } else {
        Seq::new((bands.len() - 1) as nat, |i: int| loop_points(bands[i], bands[i + 1], group_width))
    }
}

/// Builds the loop for every consecutive pair in `bands`. A sequence of
/// fewer than two bands is not an error: it simply yields no loops.
pub fn build_all_loops(bands: &Vec<SpanCord>, group_width: i64) -> (r: Vec<Vec<Point>>)
    requires
        forall|i: int| 0 <= i < bands@.len() ==> band_fits(#[trigger] bands_view(bands@)[i]),
    ensures
        r@.len() == all_loops(bands_view(bands@), group_width as int).len(),
        r@.len() == if bands@.len() < 2 {
            0int
        } else {
            bands@.len() - 1
        },
        forall|i: int| 0 <= i < r@.len() ==> loop_view(#[trigger] r@[i]@) == all_loops(
            bands_view(bands@),
            group_width as int,
        )[i],
{
    let mut r: Vec<Vec<Point>> = Vec::new();
    if bands.len() < 2 {
        return r;
    }
    let n = bands.len();
    let mut i: usize = 0;
    while i < n - 1
        invariant
            n == bands@.len(),
            2 <= n,
            i <= n - 1,
            r@.len() == i,
            forall|j: int| 0 <= j < bands@.len() ==> band_fits(#[trigger] bands_view(bands@)[j]),
            forall|j: int| 0 <= j < i ==> loop_view(#[trigger] r@[j]@) == loop_points(
                bands@[j]@,
                bands@[j + 1]@,
                group_width as int,
            ),
        decreases n - 1 - i,
    {
        proof {
            assert(bands_view(bands@)[i as int] == bands@[i as int]@);
            assert(bands_view(bands@)[i + 1] == bands@[i + 1]@);
        }
        let lp = build_loop(&bands[i], &bands[i + 1], group_width);
        r.push(lp);
        i = i + 1;
    }
    proof {
        assert forall|k: int| 0 <= k < r@.len() implies loop_view(#[trigger] r@[k]@) == all_loops(
            bands_view(bands@),
            group_width as int,
        )[k] by {
            assert(bands_view(bands@)[k] == bands@[k]@);
            assert(bands_view(bands@)[k + 1] == bands@[k + 1]@);
        }
    }
    r
}

/// The vertical mirror: every y-coordinate negated, order and x kept.
pub open spec fn mirror_points(pts: Seq<(int, int)>) -> Seq<(int, int)> {
    pts.map(|i: int, p: (int, int)| (p.0, -p.1))
}

/// Negates the y-coordinate of every point: the display-convention mirror,
/// applied between the builder and the rendering host.
pub fn mirror_loop(points: &Vec<Point>) -> (r: Vec<Point>)
    requires
        forall|i: int|
            0 <= i < points@.len() ==> (#[trigger] loop_view(points@)[i]).1 != i64::MIN,
    ensures
        loop_view(r@) == mirror_points(loop_view(points@)),
{
    let mut r: Vec<Point> = Vec::new();
    let mut i: usize = 0;
    while i < points.len()
        invariant
            i <= points@.len(),
            r@.len() == i,
            forall|j: int|
                0 <= j < points@.len() ==> (#[trigger] loop_view(points@)[j]).1 != i64::MIN,
            forall|j: int| 0 <= j < i ==> #[trigger] r@[j]@ == (points@[j]@.0, -points@[j]@.1),
        decreases points@.len() - i,
    {
        proof {
            assert(loop_view(points@)[i as int] == points@[i as int]@);
        }
        let p = points[i];
        r.push(Point { x: p.x, y: -p.y });
        i = i + 1;
    }
    proof {
        assert(loop_view(r@) =~= mirror_points(loop_view(points@)));
    }
    r
}

/// A single stitch loop has exactly nine points and is closed: its last
/// point repeats its first.
pub proof fn lemma_loop_closed(upper: ((int, int), int), lower: ((int, int), int), group_width: int)
    ensures
        loop_points(upper, lower, group_width).len() == 9,
        loop_points(upper, lower, group_width)[0] == loop_points(upper, lower, group_width)[8],
{
}

/// Every loop built for a band sequence has exactly nine points, the last
/// repeating the first.
pub proof fn lemma_all_loops_closed(bands: Seq<((int, int), int)>, group_width: int)
    ensures
        forall|i: int| 0 <= i < all_loops(bands, group_width).len() ==> (#[trigger] all_loops(
            bands,
            group_width,
        )[i]).len() == 9,
        forall|i: int| 0 <= i < all_loops(bands, group_width).len() ==> (#[trigger] all_loops(
            bands,
            group_width,
        )[i])[0] == all_loops(bands, group_width)[i][8],
{
    assert forall|i: int| 0 <= i < all_loops(bands, group_width).len() implies (#[trigger] all_loops(
        bands,
        group_width,
    )[i]).len() == 9 && (all_loops(bands, group_width)[i])[0] == all_loops(bands, group_width)[i][8]
    by {
        lemma_loop_closed(bands[i], bands[i + 1], group_width);
    }
}

/// When both bands mirror-fit, every y-coordinate of their loop lies
/// strictly above the smallest machine value, so the mirror may negate it.
pub proof fn lemma_loop_ys_mirror_fit(
    upper: ((int, int), int),
    lower: ((int, int), int),
    group_width: int,
)
    requires
        band_mirror_fits(upper),
        band_mirror_fits(lower),
    ensures
        forall|j: int|
            0 <= j < 9 ==> (#[trigger] loop_points(upper, lower, group_width)[j]).1 > i64::MIN,
{
    let lp = loop_points(upper, lower, group_width);
    assert forall|j: int| 0 <= j < 9 implies (#[trigger] lp[j]).1 > i64::MIN by {
        if j == 0 {
        } else if j == 1 {
        } else if j == 2 {
        } else if j == 3 {
        } else if j == 4 {
        } else if j == 5 {
        } else if j == 6 {
        } else if j == 7 {
        } else {
            assert(j == 8);
        }
    }
}

/// Mirroring is a pure, order-preserving map and its own inverse: applying
/// the vertical mirror twice returns the original point sequence.
pub proof fn lemma_mirror_involutive(pts: Seq<(int, int)>)
    ensures
        mirror_points(mirror_points(pts)) == pts,
        mirror_points(pts).len() == pts.len(),
        forall|i: int| 0 <= i < pts.len() ==> #[trigger] mirror_points(pts)[i] == (
            pts[i].0,
            -pts[i].1,
        ),
{
    assert(mirror_points(mirror_points(pts)) =~= pts);
}

/// A point translated by a vector.
pub open spec fn translate_point(p: (int, int), d: (int, int)) -> (int, int) {
    (p.0 + d.0, p.1 + d.1)
}

/// A band whose anchor is translated by a vector; the height is unchanged.
pub open spec fn translate_band(b: ((int, int), int), d: (int, int)) -> ((int, int), int) {
    (translate_point(b.0, d), b.1)
}

/// Every point of a sequence translated by the same vector.
pub open spec fn translate_points(pts: Seq<(int, int)>, d: (int, int)) -> Seq<(int, int)> {
    pts.map(|i: int, p: (int, int)| translate_point(p, d))
}

/// Translating both anchors by `d`, and the group width by the same
/// x-offset, translates every output point by `d` except the two left-edge
/// points (indices 5 and 6), which stay pinned to x == 0. Under a purely
/// vertical translation the whole loop therefore translates with the input.
pub proof fn lemma_build_loop_translation(
    upper: ((int, int), int),
    lower: ((int, int), int),
    group_width: int,
    d: (int, int),
)
    ensures
        forall|i: int|
            0 <= i < 9 && i != 5 && i != 6 ==> #[trigger] loop_points(
                translate_band(upper, d),
                translate_band(lower, d),
                group_width + d.0,
            )[i] == translate_point(loop_points(upper, lower, group_width)[i], d),
        d.0 == 0 ==> loop_points(
            translate_band(upper, d),
            translate_band(lower, d),
            group_width + d.0,
        ) == translate_points(loop_points(upper, lower, group_width), d),
{
    let moved = loop_points(translate_band(upper, d), translate_band(lower, d), group_width + d.0);
    let base = loop_points(upper, lower, group_width);
    assert forall|i: int| 0 <= i < 9 && i != 5 && i != 6 implies #[trigger] moved[i]
        == translate_point(base[i], d) by {
        if i == 0 {
        } else if i == 1 {
        } else if i == 2 {
        } else if i == 3 {
        } else if i == 4 {
        } else if i == 7 {
        } else {
            assert(i == 8);
        }
    }
    if d.0 == 0 {
        assert(moved =~= translate_points(base, d));
    }
}

/// Changing only the group width moves exactly the two right-edge points
/// (indices 1 and 2), and only in x: every other point is unchanged, and
/// the two moved points keep their y-coordinates.
pub proof fn lemma_group_width_isolation(
    upper: ((int, int), int),
    lower: ((int, int), int),
    w1: int,
    w2: int,
)
    ensures
        forall|i: int|
            0 <= i < 9 && i != 1 && i != 2 ==> #[trigger] loop_points(upper, lower, w1)[i]
                == loop_points(upper, lower, w2)[i],
        loop_points(upper, lower, w1)[1] == (w1, upper.0.1),
        loop_points(upper, lower, w1)[2] == (w1, lower.0.1),
        loop_points(upper, lower, w1)[1].1 == loop_points(upper, lower, w2)[1].1,
        loop_points(upper, lower, w1)[2].1 == loop_points(upper, lower, w2)[2].1,
        w1 != w2 ==> loop_points(upper, lower, w1)[1] != loop_points(upper, lower, w2)[1],
        w1 != w2 ==> loop_points(upper, lower, w1)[2] != loop_points(upper, lower, w2)[2],
{
    let s1 = loop_points(upper, lower, w1);
    let s2 = loop_points(upper, lower, w2);
    assert forall|i: int| 0 <= i < 9 && i != 1 && i != 2 implies #[trigger] s1[i] == s2[i] by {
        if i == 0 {
        } else if i == 3 {
        } else if i == 4 {
        } else if i == 5 {
        } else if i == 6 {
        } else if i == 7 {
        } else {
            assert(i == 8);
        }
    }
}

} // verus!
