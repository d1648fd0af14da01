//! The overlay plan: the polylines and outline that plot the three
//! channel histograms inside the bounds rectangle.
//!
//! Rasterizing is left to the drawing primitive of the vision library;
//! this module decides, exactly and deterministically, what is drawn: one
//! line segment per consecutive bucket pair per channel, in red-green-blue
//! order within each bucket pair, and the bounding outline, drawn after
//! the curves so the border stays crisp on top. The outline's corners are
//! derived from the point mapping itself (bucket 0 at count 0, and the
//! last bucket edge at the shared maximum), not hardcoded.

use vstd::prelude::*;

use crate::geometry::Rect;
use crate::geometry::ScreenPoint;
use crate::geometry::compute_point;
use crate::geometry::is_point_for;
use crate::geometry::lemma_point_x_monotonic;
use crate::geometry::lemma_point_y_antitone;
use crate::geometry::point_x_spec;
use crate::geometry::point_y_spec;
use crate::histogram::lemma_seq_max_ge;
use crate::histogram::max3_spec;
use crate::histogram::max_count_of;

verus! {

/// Which channel's curve a segment belongs to, and so which color it is
/// drawn in.
#[derive(Clone, Copy, Debug, PartialEq, Eq, Structural)]
pub enum ChannelColor {
    Red,
    Green,
    Blue,
}

/// One straight line segment of a channel curve.
#[derive(Clone, Copy, Debug, PartialEq, Eq, Structural)]
pub struct Segment {
    pub p0: ScreenPoint,
    pub p1: ScreenPoint,
    pub color: ChannelColor,
}

/// Everything the drawing primitive is asked to draw for one frame: the
/// curve segments first, then the outline rectangle on top.
#[derive(Clone, Debug, PartialEq, Eq)]
pub struct OverlayPlan {
    pub segments: Vec<Segment>,
    pub outline: Rect,
}

/// `seg` is the segment of color `color` that connects bucket `i - 1` to
/// bucket `i` of the histogram `h`, under `n` buckets, shared maximum `m`
/// and plot bounds `bounds`.
pub open spec fn segment_for(
    seg: Segment,
    color: ChannelColor,
    i: int,
    h: Seq<u32>,
    n: int,
    m: int,
    bounds: Rect,
) -> bool {
    &&& seg.color == color
    &&& is_point_for(seg.p0, i - 1, h[i - 1] as int, n, m, bounds)
    &&& is_point_for(seg.p1, i, h[i] as int, n, m, bounds)
}

/// `plan` is exactly the overlay of the three histograms `r`, `g`, `b`
/// inside `bounds`: `3 * (n - 1)` segments, red, green then blue for each
/// consecutive bucket pair, all normalized by the shared maximum count,
/// and the outline spanning the full plot area.
pub open spec fn plan_for(plan: OverlayPlan, r: Seq<u32>, g: Seq<u32>, b: Seq<u32>, bounds: Rect) -> bool {
    let n = r.len() as int;
    let m = max3_spec(r, g, b);
    &&& plan.segments@.len() == 3 * (n - 1)
    &&& forall|i: int|
        1 <= i < n ==> segment_for(
            #[trigger] plan.segments@[3 * (i - 1)],
            ChannelColor::Red,
            i,
            r,
            n,
            m,
            bounds,
        )
    &&& forall|i: int|
        1 <= i < n ==> segment_for(
            #[trigger] plan.segments@[3 * (i - 1) + 1],
            ChannelColor::Green,
            i,
            g,
            n,
            m,
            bounds,
        )
    &&& forall|i: int|
        1 <= i < n ==> segment_for(
            #[trigger] plan.segments@[3 * (i - 1) + 2],
            ChannelColor::Blue,
            i,
            b,
            n,
            m,
            bounds,
        )
    &&& plan.outline.x == point_x_spec(0, n, bounds)
    &&& plan.outline.y == point_y_spec(m, m, bounds)
    &&& plan.outline.width == point_x_spec(n, n, bounds) - point_x_spec(0, n, bounds)
    &&& plan.outline.height == point_y_spec(0, m, bounds) - point_y_spec(m, m, bounds)
}

/// Builds the overlay plan for one frame's three channel histograms.
///
/// Computes the shared maximum count across the three histograms, then
/// connects the consecutive screen points of each curve.
pub fn build_overlay(r: &Vec<u32>, g: &Vec<u32>, b: &Vec<u32>, bounds: &Rect) -> (plan: OverlayPlan)
    requires
        1 <= r@.len() <= u32::MAX,
        g@.len() == r@.len(),
        b@.len() == r@.len(),
        bounds.well_formed(),
    ensures
        plan_for(plan, r@, g@, b@, *bounds),
{
    let n: usize = r.len();
    let nu: u32 = n as u32;
    let m: u32 = max_count_of(r, g, b);
    let ghost mi = max3_spec(r@, g@, b@);

    let mut segments: Vec<Segment> = Vec::new();
    let mut i: usize = 1;
    while i < n
        invariant
            1 <= n == r@.len() <= u32::MAX,
            g@.len() == n,
            b@.len() == n,
            nu == n,
            bounds.well_formed(),
            m as int == mi,
            mi == max3_spec(r@, g@, b@),
            1 <= i <= n,
            segments@.len() == 3 * (i - 1),
            forall|j: int|
                1 <= j < i ==> segment_for(
                    #[trigger] segments@[3 * (j - 1)],
                    ChannelColor::Red,
                    j,
                    r@,
                    n as int,
                    mi,
                    *bounds,
                ),
            forall|j: int|
                1 <= j < i ==> segment_for(
                    #[trigger] segments@[3 * (j - 1) + 1],
                    ChannelColor::Green,
                    j,
                    g@,
                    n as int,
                    mi,
                    *bounds,
                ),
            forall|j: int|
                1 <= j < i ==> segment_for(
                    #[trigger] segments@[3 * (j - 1) + 2],
                    ChannelColor::Blue,
                    j,
                    b@,
                    n as int,
                    mi,
                    *bounds,
                ),
        decreases n - i,
    {
        proof {
            lemma_seq_max_ge(r@, i - 1);
            lemma_seq_max_ge(r@, i as int);
            lemma_seq_max_ge(g@, i - 1);
            lemma_seq_max_ge(g@, i as int);
            lemma_seq_max_ge(b@, i - 1);
            lemma_seq_max_ge(b@, i as int);
        }
        let iu: u32 = i as u32;
        let pr0 = compute_point(iu - 1, r[i - 1], nu, m, bounds);
        let pr1 = compute_point(iu, r[i], nu, m, bounds);
        segments.push(Segment { p0: pr0, p1: pr1, color: ChannelColor::Red });
        let pg0 = compute_point(iu - 1, g[i - 1], nu, m, bounds);
        let pg1 = compute_point(iu, g[i], nu, m, bounds);
        segments.push(Segment { p0: pg0, p1: pg1, color: ChannelColor::Green });
        let pb0 = compute_point(iu - 1, b[i - 1], nu, m, bounds);
        let pb1 = compute_point(iu, b[i], nu, m, bounds);
        segments.push(Segment { p0: pb0, p1: pb1, color: ChannelColor::Blue });
        i = i + 1;
    }

    let ll = compute_point(0, 0, nu, m, bounds);
    let ur = compute_point(nu, m, nu, m, bounds);
    proof {
        lemma_point_x_monotonic(0, n as int, n as int, *bounds);
        lemma_point_y_antitone(0, mi, mi, *bounds);
    }
    let outline = Rect { x: ll.x, y: ur.y, width: ur.x - ll.x, height: ll.y - ur.y };
    OverlayPlan { segments, outline }
}

/// Rendering is deterministic: two overlay plans built from the same
/// histograms and the same bounds are identical, segment for segment and
/// outline included. Drawing the same plan onto the same cleared frame
/// twice therefore produces identical output.
pub proof fn lemma_overlay_deterministic(
    plan1: OverlayPlan,
    plan2: OverlayPlan,
    r: Seq<u32>,
    g: Seq<u32>,
    b: Seq<u32>,
    bounds: Rect,
)
    requires
        1 <= r.len(),
        g.len() == r.len(),
        b.len() == r.len(),
        plan_for(plan1, r, g, b, bounds),
        plan_for(plan2, r, g, b, bounds),
    ensures
        plan1.segments@ == plan2.segments@,
        plan1.outline == plan2.outline,
{
    let n = r.len() as int;
    assert forall|k: int| 0 <= k < plan1.segments@.len() implies plan1.segments@[k]
        == plan2.segments@[k] by {
        let j = k / 3 + 1;
        let t = k % 3;
        assert(k == 3 * (k / 3) + k % 3);
        assert(1 <= j < n);
        assert(3 * (j - 1) + t == k);
        if t == 0 {
            assert(segment_for(plan1.segments@[3 * (j - 1)], ChannelColor::Red, j, r, n, max3_spec(r, g, b), bounds));
            assert(segment_for(plan2.segments@[3 * (j - 1)], ChannelColor::Red, j, r, n, max3_spec(r, g, b), bounds));
        } else if t == 1 {
            assert(segment_for(plan1.segments@[3 * (j - 1) + 1], ChannelColor::Green, j, g, n, max3_spec(r, g, b), bounds));
            assert(segment_for(plan2.segments@[3 * (j - 1) + 1], ChannelColor::Green, j, g, n, max3_spec(r, g, b), bounds));
        } else {
            assert(segment_for(plan1.segments@[3 * (j - 1) + 2], ChannelColor::Blue, j, b, n, max3_spec(r, g, b), bounds));
            assert(segment_for(plan2.segments@[3 * (j - 1) + 2], ChannelColor::Blue, j, b, n, max3_spec(r, g, b), bounds));
        }
    }
    assert(plan1.segments@ =~= plan2.segments@);
}

} // verus!
