//! The application state: the band sequence and the shared group width,
//! with the compiled-in defaults and the per-frame derivation of the
//! mirrored display loops.

use vstd::prelude::*;

use crate::geometry::all_loops;
use crate::geometry::band_mirror_fits;
use crate::geometry::bands_view;
use crate::geometry::build_all_loops;
use crate::geometry::lemma_loop_ys_mirror_fit;
use crate::geometry::loop_view;
use crate::geometry::mirror_loop;
use crate::geometry::mirror_points;
use crate::geometry::Point;
use crate::geometry::SpanCord;

verus! {

/// The top-level application state: a label, the ordered band sequence,
/// and the shared right-edge x-coordinate of every stitch.
pub struct App {
    pub label: String,
    pub span_rect: Vec<SpanCord>,
    pub span_group_width: i64,
}

/// The compiled-in default band sequence.
pub open spec fn default_bands() -> Seq<((int, int), int)> {
    seq![
        ((10int, 0int), 10int),
        ((50int, 50int), 20int),
        ((20int, 150int), 10int),
        ((70int, 200int), 50int),
        ((15int, 300int), 10int),
        ((25int, 300int), 10int),
        ((80int, 300int), 10int),
        ((80int, 400int), 10int),
        ((100int, 500int), 10int),
    ]
}

/// The compiled-in default group width.
pub open spec fn default_group_width() -> int {
    100
}

/// Every compiled-in default band keeps its y-coordinates and their
/// mirrors within the machine range.
pub proof fn lemma_default_bands_fit()
    ensures
        forall|i: int|
            0 <= i < default_bands().len() ==> band_mirror_fits(#[trigger] default_bands()[i]),
{
    assert forall|i: int| 0 <= i < default_bands().len() implies band_mirror_fits(
        #[trigger] default_bands()[i],
    ) by {
        if i == 0 {
        } else if i == 1 {
        } else if i == 2 {
        } else if i == 3 {
        } else if i == 4 {
        } else if i == 5 {
        } else if i == 6 {
        } else if i == 7 {
        } else {
            assert(i == 8);
        }
    }
}

impl Default for App {
    /// The default state: the fixed demo band list and group width.
    fn default() -> (r: Self)
        ensures
            r.label@ == "Hello World!"@,
            bands_view(r.span_rect@) == default_bands(),
            r.span_group_width == default_group_width(),
    {
        let mut span_rect: Vec<SpanCord> = Vec::new();
        span_rect.push(SpanCord { anchor: Point { x: 10, y: 0 }, height: 10 });
        span_rect.push(SpanCord { anchor: Point { x: 50, y: 50 }, height: 20 });
        span_rect.push(SpanCord { anchor: Point { x: 20, y: 150 }, height: 10 });
        span_rect.push(SpanCord { anchor: Point { x: 70, y: 200 }, height: 50 });
        span_rect.push(SpanCord { anchor: Point { x: 15, y: 300 }, height: 10 });
        span_rect.push(SpanCord { anchor: Point { x: 25, y: 300 }, height: 10 });
        span_rect.push(SpanCord { anchor: Point { x: 80, y: 300 }, height: 10 });
        span_rect.push(SpanCord { anchor: Point { x: 80, y: 400 }, height: 10 });
        span_rect.push(SpanCord { anchor: Point { x: 100, y: 500 }, height: 10 });
        proof {
            assert(bands_view(span_rect@) =~= default_bands());
        }
        App { label: "Hello World!".to_owned(), span_rect, span_group_width: 100 }
    }
}

impl App {
    /// The state for the first frame. A host that restores an earlier
    /// session's snapshot replaces this value before the first render.
    pub fn new() -> (r: Self)
        ensures
            r.label@ == "Hello World!"@,
            bands_view(r.span_rect@) == default_bands(),
            r.span_group_width == default_group_width(),
    {
        Default::default()
    }

    /// The loops handed to the renderer: one per consecutive band pair,
    /// each passed through the vertical display mirror.
    pub fn display_loops(&self) -> (r: Vec<Vec<Point>>)
        requires
            forall|i: int|
                0 <= i < self.span_rect@.len() ==> band_mirror_fits(
                    #[trigger] bands_view(self.span_rect@)[i],
                ),
        ensures
            r@.len() == all_loops(bands_view(self.span_rect@), self.span_group_width as int).len(),
            forall|i: int|
                0 <= i < r@.len() ==> loop_view(#[trigger] r@[i]@) == mirror_points(
                    all_loops(bands_view(self.span_rect@), self.span_group_width as int)[i],
                ),
    {
        let loops = build_all_loops(&self.span_rect, self.span_group_width);
        let ghost spec_loops = all_loops(bands_view(self.span_rect@), self.span_group_width as int);
        let mut r: Vec<Vec<Point>> = Vec::new();
        let mut i: usize = 0;
        while i < loops.len()
            invariant
                loops@.len() == spec_loops.len(),
                spec_loops == all_loops(bands_view(self.span_rect@), self.span_group_width as int),
                forall|j: int|
                    0 <= j < self.span_rect@.len() ==> band_mirror_fits(
                        #[trigger] bands_view(self.span_rect@)[j],
                    ),
                forall|j: int|
                    0 <= j < loops@.len() ==> loop_view(#[trigger] loops@[j]@) == spec_loops[j],
                i <= loops@.len(),
                r@.len() == i,
                forall|j: int|
                    0 <= j < i ==> loop_view(#[trigger] r@[j]@) == mirror_points(spec_loops[j]),
            decreases loops@.len() - i,
        {
            proof {
                lemma_loop_ys_mirror_fit(
                    bands_view(self.span_rect@)[i as int],
                    bands_view(self.span_rect@)[i + 1],
                    self.span_group_width as int,
                );
                assert(loop_view(loops@[i as int]@) == spec_loops[i as int]);
            }
            let mirrored = mirror_loop(&loops[i]);
            r.push(mirrored);
            i = i + 1;
        }
        r
    }
}

} // verus!
