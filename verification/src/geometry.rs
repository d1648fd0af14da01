//! Screen geometry: the bounds rectangle of the histogram plot and the
//! mapping from a (bucket index, count) pair to a screen point.

use vstd::prelude::*;

verus! {

/// An axis-aligned rectangle in frame pixel coordinates.
#[derive(Clone, Copy, Debug, PartialEq, Eq, Structural)]
pub struct Rect {
    pub x: i32,
    pub y: i32,
    pub width: i32,
    pub height: i32,
}

/// An integer pixel coordinate inside the frame.
#[derive(Clone, Copy, Debug, PartialEq, Eq, Structural)]
pub struct ScreenPoint {
    pub x: i32,
    pub y: i32,
}

impl Rect {
    /// A rectangle usable as plot bounds: non-negative extent, and both
    /// far corners still representable as `i32` coordinates.
    pub open spec fn well_formed(self) -> bool {
        &&& self.width >= 0
        &&& self.height >= 0
        &&& self.x + self.width <= i32::MAX
        &&& self.y + self.height <= i32::MAX
    }
}

/// Horizontal mapping: bucket `bucket_index` of `num_buckets` lands at
/// `bounds.x + floor(bucket_index / num_buckets * bounds.width)`.
pub open spec fn point_x_spec(bucket_index: int, num_buckets: int, bounds: Rect) -> int {
    bounds.x + bucket_index * bounds.width / num_buckets
}

/// Vertical mapping: a count of `count` out of a shared maximum `max_count`
/// lands at `bounds.y + floor((1 - count / max_count) * bounds.height)`.
/// When `max_count` is zero there is nothing to scale by and every count is
/// drawn on the bottom edge of the plot.
pub open spec fn point_y_spec(count: int, max_count: int, bounds: Rect) -> int {
    if max_count == 0 {
        bounds.y + bounds.height
    } else {
        bounds.y + (max_count - count) * bounds.height / max_count
    }
}

/// `p` is exactly where the mapping puts bucket `bucket_index` with count
/// `count`, under `num_buckets` buckets, shared maximum `max_count`, and
/// plot bounds `bounds`.
pub open spec fn is_point_for(
    p: ScreenPoint,
    bucket_index: int,
    count: int,
    num_buckets: int,
    max_count: int,
    bounds: Rect,
) -> bool {
    &&& p.x == point_x_spec(bucket_index, num_buckets, bounds)
    &&& p.y == point_y_spec(count, max_count, bounds)
}

/// Scaling a quantity `a` out of `c` onto an extent `b` never leaves the
/// extent: `floor(a * b / c) <= b`.
pub(crate) proof fn lemma_scaled_fraction_le(a: int, b: int, c: int)
    requires
        0 <= a <= c,
        0 < c,
        0 <= b,
    ensures
        0 <= a * b,
        a * b <= c * b,
        0 <= a * b / c <= b,
{
    assert(0 <= a * b <= c * b && 0 <= a * b / c <= b) by (nonlinear_arith)
        requires
            0 <= a <= c,
            0 < c,
            0 <= b,
    ;
}

/// A product of non-negative factors is bounded by the product of their
/// bounds.
pub(crate) proof fn lemma_mul_bound(a: int, b: int, a_max: int, b_max: int)
    requires
        0 <= a <= a_max,
        0 <= b <= b_max,
    ensures
        a * b <= a_max * b_max,
{
    assert(a * b <= a_max * b_max) by (nonlinear_arith)
        requires
            0 <= a <= a_max,
            0 <= b <= b_max,
    ;
}

/// Maps a (bucket index, count) pair into the bounds rectangle.
///
/// The horizontal fraction is `bucket_index / num_buckets` and the vertical
/// fraction is `1 - count / max_count`, inverted because larger counts plot
/// closer to the top edge; both products are floored. A zero `max_count`
/// would divide by zero, so that case is drawn on the bottom edge.
pub fn compute_point(
    bucket_index: u32,
    count: u32,
    num_buckets: u32,
    max_count: u32,
    bounds: &Rect,
) -> (p: ScreenPoint)
    requires
        num_buckets > 0,
        bucket_index <= num_buckets,
        count <= max_count,
        bounds.well_formed(),
    ensures
        is_point_for(p, bucket_index as int, count as int, num_buckets as int, max_count as int, *bounds),
{
    let w: u64 = bounds.width as u64;
    let h: u64 = bounds.height as u64;

    proof {
        lemma_mul_bound(bucket_index as int, w as int, u32::MAX as int, i32::MAX as int);
        lemma_scaled_fraction_le(bucket_index as int, w as int, num_buckets as int);
    }
    let qx: u64 = bucket_index as u64 * w / num_buckets as u64;
    let ix: i32 = bounds.x + qx as i32;

    let iy: i32 = if max_count == 0 {
        bounds.y + bounds.height
    } else {
        proof {
            lemma_mul_bound((max_count - count) as int, h as int, u32::MAX as int, i32::MAX as int);
            lemma_scaled_fraction_le((max_count - count) as int, h as int, max_count as int);
        }
        let qy: u64 = (max_count - count) as u64 * h / max_count as u64;
        bounds.y + qy as i32
    };

    ScreenPoint { x: ix, y: iy }
}

/// The horizontal mapping is monotonic non-decreasing in the bucket index
/// across `[0, num_buckets]`, sends bucket `0` to the left edge of the
/// bounds, and sends bucket `num_buckets` to the right edge.
pub proof fn lemma_point_x_monotonic(b1: int, b2: int, num_buckets: int, bounds: Rect)
    requires
        0 <= b1 <= b2 <= num_buckets,
        0 < num_buckets,
        bounds.well_formed(),
    ensures
        point_x_spec(b1, num_buckets, bounds) <= point_x_spec(b2, num_buckets, bounds),
        point_x_spec(0, num_buckets, bounds) == bounds.x,
        point_x_spec(num_buckets, num_buckets, bounds) == bounds.x + bounds.width,
        bounds.x <= point_x_spec(b1, num_buckets, bounds) <= bounds.x + bounds.width,
{
    let w = bounds.width as int;
    assert(b1 * w / num_buckets <= b2 * w / num_buckets) by (nonlinear_arith)
        requires
            0 <= b1 <= b2,
            0 < num_buckets,
            0 <= w,
    ;
    assert(0 * w / num_buckets == 0) by (nonlinear_arith)
        requires
            0 < num_buckets,
    ;
    assert(num_buckets * w / num_buckets == w) by (nonlinear_arith)
        requires
            0 < num_buckets,
            0 <= w,
    ;
    lemma_scaled_fraction_le(b1, w, num_buckets);
}

/// The vertical mapping is antitone in the count: for a fixed shared
/// maximum, a larger count plots at the same height or higher (a smaller
/// `y`), and every count lands within the vertical span of the bounds.
pub proof fn lemma_point_y_antitone(c1: int, c2: int, max_count: int, bounds: Rect)
    requires
        0 <= c1 <= c2 <= max_count,
        bounds.well_formed(),
    ensures
        point_y_spec(c2, max_count, bounds) <= point_y_spec(c1, max_count, bounds),
        bounds.y <= point_y_spec(c1, max_count, bounds) <= bounds.y + bounds.height,
        bounds.y <= point_y_spec(c2, max_count, bounds) <= bounds.y + bounds.height,
{
    if max_count != 0 {
        let h = bounds.height as int;
        assert((max_count - c2) * h / max_count <= (max_count - c1) * h / max_count)
            by (nonlinear_arith)
            requires
                0 <= c1 <= c2 <= max_count,
                0 < max_count,
                0 <= h,
        ;
        lemma_scaled_fraction_le(max_count - c1, h, max_count);
        lemma_scaled_fraction_le(max_count - c2, h, max_count);
    }
}

/// With a shared maximum of zero there is no scale to normalize by, and
/// every count, whatever the bucket, is drawn on the bottom edge of the
/// plot bounds.
pub proof fn lemma_zero_max_count_bottom_edge(count: int, max_count: int, bounds: Rect)
    requires
        max_count == 0,
    ensures
        point_y_spec(count, max_count, bounds) == bounds.y + bounds.height,
{
}

} // verus!
