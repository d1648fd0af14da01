//! Per-channel intensity histograms of a frame.
//!
//! A frame is a grid of pixels with interleaved 8-bit channel samples. The
//! value range `[0, 256)` is split into `num_buckets` buckets of equal
//! width `256 / num_buckets`; the histogram of one channel counts, per
//! bucket, how many of that channel's samples fall into it.

use vstd::prelude::*;

use crate::geometry::lemma_mul_bound;

verus! {

/// A frame: `width * height` pixels, each with `num_channels` 8-bit
/// samples, stored interleaved (pixel `p`, channel `c` at index
/// `p * num_channels + c`).
#[derive(Clone, Debug)]
pub struct Frame {
    pub width: u32,
    pub height: u32,
    pub num_channels: u32,
    pub data: Vec<u8>,
}

impl Frame {
    /// How many pixels the frame holds.
    pub open spec fn num_pixels(self) -> int {
        self.width as int * self.height as int
    }

    /// The sample data matches the declared dimensions, and the pixel
    /// count is small enough that every bucket count fits in a `u32`.
    pub open spec fn well_formed(self) -> bool {
        &&& self.data@.len() == self.num_pixels() * self.num_channels as int
        &&& self.num_pixels() <= u32::MAX
    }

    /// The sample of channel `c` at pixel `p`.
    pub open spec fn sample(self, p: int, c: int) -> u8 {
        self.data@[p * self.num_channels as int + c]
    }

    /// All samples of channel `c`, in pixel order.
    pub open spec fn channel_seq(self, c: int) -> Seq<u8> {
        Seq::new(self.num_pixels() as nat, |p: int| self.sample(p, c))
    }

    /// Checks that the sample data matches the declared dimensions.
    pub fn check_well_formed(&self) -> (b: bool)
        ensures
            b == self.well_formed(),
    {
        proof {
            lemma_mul_bound(self.width as int, self.height as int, u32::MAX as int, u32::MAX as int);
        }
        let np: u64 = self.width as u64 * self.height as u64;
        if np > u32::MAX as u64 {
            return false;
        }
        proof {
            lemma_mul_bound(np as int, self.num_channels as int, u32::MAX as int, u32::MAX as int);
        }
        let total: u64 = np * self.num_channels as u64;
        self.data.len() as u64 == total
    }
}

/// `num_buckets` splits the fixed value range `[0, 256)` into buckets of
/// equal width: it must be positive, at most 256, and divide 256 evenly.
pub open spec fn valid_bucket_count(num_buckets: int) -> bool {
    &&& 0 < num_buckets <= 256
    &&& 256int % num_buckets == 0
}

/// The bucket that sample value `sample` falls into: buckets have width
/// `256 / num_buckets`, with inclusive lower and exclusive upper edges.
pub open spec fn bucket_of_spec(sample: u8, num_buckets: int) -> int {
    sample as int / (256int / num_buckets)
}

/// Every sample value maps to a bucket index below `num_buckets`.
pub proof fn lemma_bucket_in_range(sample: u8, num_buckets: int)
    requires
        valid_bucket_count(num_buckets),
    ensures
        0 <= bucket_of_spec(sample, num_buckets) < num_buckets,
        0 < 256int / num_buckets,
{
    let w: int = 256int / num_buckets;
    assert(num_buckets * w == 256 && 0 < w) by (nonlinear_arith)
        requires
            0 < num_buckets <= 256,
            256int % num_buckets == 0,
            w == 256int / num_buckets,
    ;
    assert(0 <= sample as int / w < num_buckets) by (nonlinear_arith)
        requires
            0 < w,
            0 < num_buckets,
            num_buckets * w == 256,
            0 <= (sample as int) < 256,
    ;
}

/// Maps a raw channel sample into its bucket.
pub fn bucket_of(sample: u8, num_buckets: u32) -> (b: u32)
    requires
        valid_bucket_count(num_buckets as int),
    ensures
        b as int == bucket_of_spec(sample, num_buckets as int),
        b < num_buckets,
{
    proof {
        lemma_bucket_in_range(sample, num_buckets as int);
    }
    let w: u32 = 256 / num_buckets;
    sample as u32 / w
}

/// How many samples of `samples` fall into bucket `b`.
pub open spec fn bucket_count_spec(samples: Seq<u8>, num_buckets: int, b: int) -> nat
    decreases samples.len(),
{
    if samples.len() == 0 {
        0
    } else {
        bucket_count_spec(samples.drop_last(), num_buckets, b) + (
        if bucket_of_spec(samples.last(), num_buckets) == b {
            1nat
        } else {
            0nat
        })
    }
}

/// A bucket never counts more samples than there are.
pub proof fn lemma_bucket_count_le_len(samples: Seq<u8>, num_buckets: int, b: int)
    ensures
        bucket_count_spec(samples, num_buckets, b) <= samples.len(),
    decreases samples.len(),
{
    if samples.len() > 0 {
        lemma_bucket_count_le_len(samples.drop_last(), num_buckets, b);
    }
}

/// The total number of samples counted by a histogram.
pub open spec fn sum_counts(h: Seq<u32>) -> int
    decreases h.len(),
{
    if h.len() == 0 {
        0
    } else {
        sum_counts(h.drop_last()) + h.last()
    }
}

/// `h` is exactly the histogram of `samples` over `num_buckets` buckets.
pub open spec fn histogram_of(h: Seq<u32>, samples: Seq<u8>, num_buckets: int) -> bool {
    &&& h.len() == num_buckets
    &&& forall|b: int|
        0 <= b < num_buckets ==> h[b] as nat == bucket_count_spec(samples, num_buckets, b)
}

/// Replacing one entry of a histogram shifts the total by the difference.
proof fn lemma_sum_counts_update(h: Seq<u32>, i: int, v: u32)
    requires
        0 <= i < h.len(),
    ensures
        sum_counts(h.update(i, v)) == sum_counts(h) - h[i] + v,
    decreases h.len(),
{
    if i == h.len() - 1 {
        assert(h.update(i, v).drop_last() =~= h.drop_last());
    } else {
        assert(h.update(i, v).drop_last() =~= h.drop_last().update(i, v));
        lemma_sum_counts_update(h.drop_last(), i, v);
    }
}

/// A histogram of all-zero counts totals zero.
proof fn lemma_sum_counts_zero(h: Seq<u32>)
    requires
        forall|i: int| 0 <= i < h.len() ==> h[i] == 0,
    ensures
        sum_counts(h) == 0,
    decreases h.len(),
{
    if h.len() > 0 {
        lemma_sum_counts_zero(h.drop_last());
    }
}

/// The bucket counts of any histogram of `samples` add up to the number
/// of samples counted.
pub proof fn lemma_histogram_sum(h: Seq<u32>, samples: Seq<u8>, num_buckets: int)
    requires
        valid_bucket_count(num_buckets),
        histogram_of(h, samples, num_buckets),
    ensures
        sum_counts(h) == samples.len(),
    decreases samples.len(),
{
    if samples.len() == 0 {
        assert(forall|b: int| 0 <= b < h.len() ==> h[b] == 0);
        lemma_sum_counts_zero(h);
    } else {
        let rest = samples.drop_last();
        let bl = bucket_of_spec(samples.last(), num_buckets);
        lemma_bucket_in_range(samples.last(), num_buckets);
        assert(h[bl] as nat == bucket_count_spec(samples, num_buckets, bl));
        assert(bucket_count_spec(samples, num_buckets, bl) == bucket_count_spec(
            rest,
            num_buckets,
            bl,
        ) + 1);
        let h2 = h.update(bl, (h[bl] - 1) as u32);
        assert forall|b: int| 0 <= b < num_buckets implies h2[b] as nat == bucket_count_spec(
            rest,
            num_buckets,
            b,
        ) by {
            if b != bl {
                assert(bucket_count_spec(samples, num_buckets, b) == bucket_count_spec(
                    rest,
                    num_buckets,
                    b,
                ));
            }
        }
        lemma_histogram_sum(h2, rest, num_buckets);
        lemma_sum_counts_update(h, bl, (h[bl] - 1) as u32);
    }
}

/// Why a histogram could not be computed.
#[derive(Clone, Copy, Debug, PartialEq, Eq, Structural)]
pub enum HistError {
    /// The frame's sample data does not match its declared dimensions,
    /// or its pixel count is too large to count in `u32` buckets.
    MalformedFrame,
    /// The requested channel index is not below the frame's channel count.
    ChannelOutOfRange,
}

/// A histogram of `num_buckets` empty buckets.
pub fn make_zero_histogram(num_buckets: u32) -> (h: Vec<u32>)
    ensures
        h@.len() == num_buckets,
        forall|i: int| 0 <= i < h@.len() ==> h@[i] == 0,
{
    let mut h: Vec<u32> = Vec::new();
    while h.len() < num_buckets as usize
        invariant
            h@.len() <= num_buckets,
            forall|i: int| 0 <= i < h@.len() ==> h@[i] == 0,
        decreases num_buckets - h@.len(),
    {
        h.push(0);
    }
    h
}

/// Builds the histogram of one channel of a frame.
///
/// Every pixel is counted (no masking). A malformed frame or an invalid
/// channel index is reported as a recoverable error, so the caller can
/// substitute an empty histogram instead of aborting the frame loop.
pub fn compute_histogram(frame: &Frame, channel: u32, num_buckets: u32) -> (r: Result<
    Vec<u32>,
    HistError,
>)
    requires
        valid_bucket_count(num_buckets as int),
    ensures
        r is Err <==> !frame.well_formed() || channel >= frame.num_channels,
        r matches Err(e) ==> (e is MalformedFrame <==> !frame.well_formed()),
        r matches Err(e) ==> (e is ChannelOutOfRange <==> frame.well_formed() && channel
            >= frame.num_channels),
        r matches Ok(h) ==> histogram_of(h@, frame.channel_seq(channel as int), num_buckets as int),
        r matches Ok(h) ==> sum_counts(h@) == frame.num_pixels(),
{
    if !frame.check_well_formed() {
        return Err(HistError::MalformedFrame);
    }
    if channel >= frame.num_channels {
        return Err(HistError::ChannelOutOfRange);
    }

    let ghost samples = frame.channel_seq(channel as int);
    let mut hist: Vec<u32> = make_zero_histogram(num_buckets);
    let num_pixels: u32 = frame.width * frame.height;
    let nc: u32 = frame.num_channels;

    proof {
        assert(samples.take(0) =~= Seq::<u8>::empty());
        assert(forall|b: int|
            0 <= b < num_buckets ==> bucket_count_spec(samples.take(0), num_buckets as int, b)
                == 0);
        lemma_sum_counts_zero(hist@);
    }

    let mut p: u32 = 0;
    while p < num_pixels
        invariant
            valid_bucket_count(num_buckets as int),
            frame.well_formed(),
            channel < nc,
            nc == frame.num_channels,
            num_pixels == frame.num_pixels(),
            samples == frame.channel_seq(channel as int),
            p <= num_pixels,
            hist@.len() == num_buckets,
            forall|b: int|
                0 <= b < num_buckets ==> hist@[b] as nat == bucket_count_spec(
                    samples.take(p as int),
                    num_buckets as int,
                    b,
                ),
            sum_counts(hist@) == p,
        decreases num_pixels - p,
    {
        proof {
            lemma_mul_bound(p as int, nc as int, u32::MAX as int, u32::MAX as int);
            assert((p as int) * (nc as int) + (channel as int) < (num_pixels as int) * (
            nc as int)) by (nonlinear_arith)
                requires
                    p < num_pixels,
                    channel < nc,
                    0 <= p,
                    0 <= channel,
            ;
        }
        let dlen: usize = frame.data.len();
        proof {
            assert((p as int) * (nc as int) + (channel as int) < dlen);
        }
        let idx: usize = p as usize * nc as usize + channel as usize;
        let s: u8 = frame.data[idx];
        let b: u32 = bucket_of(s, num_buckets);

        proof {
            lemma_bucket_count_le_len(samples.take(p as int), num_buckets as int, b as int);
        }
        let old_count: u32 = hist[b as usize];
        let ghost old_hist = hist@;
        hist.set(b as usize, old_count + 1);

        proof {
            let pi = p as int;
            assert(samples.take(pi + 1).drop_last() =~= samples.take(pi));
            assert(samples.take(pi + 1).last() == s);
            lemma_sum_counts_update(old_hist, b as int, (old_count + 1) as u32);
            assert forall|bb: int| 0 <= bb < num_buckets implies hist@[bb] as nat
                == bucket_count_spec(samples.take(pi + 1), num_buckets as int, bb) by {
                assert(bucket_count_spec(samples.take(pi + 1), num_buckets as int, bb)
                    == bucket_count_spec(samples.take(pi), num_buckets as int, bb) + (
                if bucket_of_spec(s, num_buckets as int) == bb {
                    1nat
                } else {
                    0nat
                }));
            }
        }
        p = p + 1;
    }

    proof {
        assert(samples.take(num_pixels as int) =~= samples);
    }
    Ok(hist)
}

/// The histogram of `samples` over `num_buckets` buckets, as a sequence
/// of counts.
pub open spec fn histogram_seq(samples: Seq<u8>, num_buckets: int) -> Seq<u32> {
    Seq::new(num_buckets as nat, |b: int| bucket_count_spec(samples, num_buckets, b) as u32)
}

/// `num_buckets` empty buckets.
pub open spec fn zero_histogram_seq(num_buckets: int) -> Seq<u32> {
    Seq::new(num_buckets as nat, |b: int| 0u32)
}

/// The histogram the frame loop uses for one channel: the channel's real
/// histogram when the frame and channel are usable, and the all-zero
/// substitute otherwise.
pub open spec fn effective_histogram(frame: Frame, channel: int, num_buckets: int) -> Seq<u32> {
    if frame.well_formed() && 0 <= channel < frame.num_channels as int {
        histogram_seq(frame.channel_seq(channel), num_buckets)
    } else {
        zero_histogram_seq(num_buckets)
    }
}

/// Builds the histogram of one channel, substituting an all-zero
/// histogram of the requested length when the computation reports a
/// recoverable error, so one bad frame never aborts the loop.
pub fn histogram_or_zero(frame: &Frame, channel: u32, num_buckets: u32) -> (h: Vec<u32>)
    requires
        valid_bucket_count(num_buckets as int),
    ensures
        h@ == effective_histogram(*frame, channel as int, num_buckets as int),
        h@.len() == num_buckets,
        frame.well_formed() && channel < frame.num_channels ==> histogram_of(
            h@,
            frame.channel_seq(channel as int),
            num_buckets as int,
        ) && sum_counts(h@) == frame.num_pixels(),
        !(frame.well_formed() && channel < frame.num_channels) ==> forall|i: int|
            0 <= i < h@.len() ==> h@[i] == 0,
{
    match compute_histogram(frame, channel, num_buckets) {
        Ok(h) => {
            proof {
                let samples = frame.channel_seq(channel as int);
                assert forall|b: int| 0 <= b < num_buckets implies h@[b] == histogram_seq(
                    samples,
                    num_buckets as int,
                )[b] by {
                    assert(h@[b] as nat == bucket_count_spec(samples, num_buckets as int, b));
                }
                assert(h@ =~= effective_histogram(*frame, channel as int, num_buckets as int));
            }
            h
        },
        Err(_) => {
            let z = make_zero_histogram(num_buckets);
            proof {
                assert(z@ =~= effective_histogram(*frame, channel as int, num_buckets as int));
            }
            z
        },
    }
}

/// The largest count in a histogram, or zero when it is empty.
pub open spec fn seq_max(s: Seq<u32>) -> int
    decreases s.len(),
{
    if s.len() == 0 {
        0
    } else {
        let m = seq_max(s.drop_last());
        if s.last() as int > m {
            s.last() as int
        } else {
            m
        }
    }
}

/// The largest of the three channel maxima: the shared vertical scale of
/// the plot.
pub open spec fn max3_spec(r: Seq<u32>, g: Seq<u32>, b: Seq<u32>) -> int {
    let mr = seq_max(r);
    let mg = seq_max(g);
    let mb = seq_max(b);
    if mr >= mg && mr >= mb {
        mr
    } else if mg >= mb {
        mg
    } else {
        mb
    }
}

/// Every count of a histogram is bounded by its maximum, and the maximum
/// is never negative.
pub proof fn lemma_seq_max_ge(s: Seq<u32>, i: int)
    requires
        0 <= i < s.len(),
    ensures
        s[i] as int <= seq_max(s),
        0 <= seq_max(s),
    decreases s.len(),
{
    if i < s.len() - 1 {
        lemma_seq_max_ge(s.drop_last(), i);
    }
}

/// Computes the largest single-bucket count across the three channel
/// histograms of one frame: the shared normalization denominator that
/// keeps the three plotted curves on one vertical scale.
pub fn max_count_of(r: &Vec<u32>, g: &Vec<u32>, b: &Vec<u32>) -> (m: u32)
    requires
        g@.len() == r@.len(),
        b@.len() == r@.len(),
    ensures
        m as int == max3_spec(r@, g@, b@),
{
    let n: usize = r.len();
    let mut m: u32 = 0;
    let mut i: usize = 0;
    while i < n
        invariant
            n == r@.len(),
            g@.len() == n,
            b@.len() == n,
            i <= n,
            m as int == max3_spec(r@.take(i as int), g@.take(i as int), b@.take(i as int)),
        decreases n - i,
    {
        proof {
            let ii = i as int;
            assert(r@.take(ii + 1).drop_last() =~= r@.take(ii));
            assert(g@.take(ii + 1).drop_last() =~= g@.take(ii));
            assert(b@.take(ii + 1).drop_last() =~= b@.take(ii));
        }
        let rv = r[i];
        if rv > m {
            m = rv;
        }
        let gv = g[i];
        if gv > m {
            m = gv;
        }
        let bv = b[i];
        if bv > m {
            m = bv;
        }
        i = i + 1;
    }
    proof {
        assert(r@.take(n as int) =~= r@);
        assert(g@.take(n as int) =~= g@);
        assert(b@.take(n as int) =~= b@);
    }
    m
}

} // verus!
