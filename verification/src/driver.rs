//! The frame loop: its configuration, the placement of the plot inside
//! the frame, the per-frame processing, and the loop's own state machine.
//!
//! Capturing, displaying and key polling are outside collaborators; the
//! loop's decisions (process or back off, keep going or terminate) are a
//! pure function of the current state and the event the collaborators
//! report, so they can be verified here and executed anywhere.

use vstd::prelude::*;

use crate::geometry::Rect;
use crate::histogram::Frame;
use crate::histogram::effective_histogram;
use crate::histogram::histogram_or_zero;
use crate::histogram::valid_bucket_count;
use crate::render::OverlayPlan;
use crate::render::build_overlay;
use crate::render::plan_for;

verus! {

/// The compiled-in constants of the overlay, gathered in one place so
/// the normalizer and renderer stay pure functions of their inputs.
#[derive(Clone, Copy, Debug, PartialEq, Eq, Structural)]
pub struct Config {
    /// How many buckets each channel histogram has.
    pub num_buckets: u32,
    /// Width of the plot rectangle, in pixels.
    pub hist_width: i32,
    /// Height of the plot rectangle, in pixels.
    pub hist_height: i32,
    /// Gap kept between the plot and the bottom edge of the frame.
    pub hist_pad: i32,
    /// How long the display sink polls for a key press each iteration.
    pub poll_timeout_ms: u32,
    /// How long the loop waits before retrying after an empty frame.
    pub backoff_ms: u64,
}

impl Config {
    /// The bucket count splits the sample range evenly and the plot has
    /// positive extent that fits `i32` arithmetic.
    pub open spec fn well_formed(self) -> bool {
        &&& valid_bucket_count(self.num_buckets as int)
        &&& 0 < self.hist_width
        &&& 0 < self.hist_height
        &&& 0 <= self.hist_pad
        &&& self.hist_height + self.hist_pad <= i32::MAX
    }

    /// The standard configuration: 256 buckets, a 600 by 150 plot with a
    /// 32 pixel bottom gap, a 10 ms key poll, and a 50 s empty-frame
    /// backoff.
    pub fn standard() -> (c: Config)
        ensures
            c.num_buckets == 256,
            c.hist_width == 600,
            c.hist_height == 150,
            c.hist_pad == 32,
            c.poll_timeout_ms == 10,
            c.backoff_ms == 50000,
            c.well_formed(),
    {
        Config {
            num_buckets: 256,
            hist_width: 600,
            hist_height: 150,
            hist_pad: 32,
            poll_timeout_ms: 10,
            backoff_ms: 50000,
        }
    }
}

/// Where the plot's left edge sits: the plot is centered horizontally,
/// with the division rounded toward zero as the frame loop computes it.
pub open spec fn bounds_x_spec(frame_width: int, hist_width: int) -> int {
    if frame_width >= hist_width {
        (frame_width - hist_width) / 2
    } else {
        -((hist_width - frame_width) / 2)
    }
}

/// The plot rectangle for a frame of the given size: centered
/// horizontally, resting `hist_pad` pixels above the bottom edge.
pub open spec fn bounds_spec(frame_width: int, frame_height: int, cfg: Config) -> Rect {
    Rect {
        x: bounds_x_spec(frame_width, cfg.hist_width as int) as i32,
        y: (frame_height - (cfg.hist_height as int + cfg.hist_pad as int)) as i32,
        width: cfg.hist_width,
        height: cfg.hist_height,
    }
}

/// Computes the plot rectangle for a frame of the given size.
pub fn compute_bounds(frame_width: i32, frame_height: i32, cfg: &Config) -> (r: Rect)
    requires
        cfg.well_formed(),
        0 <= frame_width,
        0 <= frame_height,
    ensures
        r == bounds_spec(frame_width as int, frame_height as int, *cfg),
        r.well_formed(),
{
    let x: i32 = if frame_width >= cfg.hist_width {
        (((frame_width - cfg.hist_width) as u32) / 2) as i32
    } else {
        -((((cfg.hist_width - frame_width) as u32) / 2) as i32)
    };
    let y: i32 = frame_height - (cfg.hist_height + cfg.hist_pad);
    Rect { x, y, width: cfg.hist_width, height: cfg.hist_height }
}

/// Computes the full overlay plan for one captured frame: the three
/// channel histograms (zero-substituted on a recoverable error), the
/// shared maximum, and the plot geometry inside the frame.
///
/// Channels are stored blue, green, red at ordinals 0, 1, 2, so the red
/// curve reads channel 2 and the blue curve channel 0.
pub fn process_frame(frame: &Frame, cfg: &Config) -> (plan: OverlayPlan)
    requires
        cfg.well_formed(),
        frame.width <= i32::MAX,
        frame.height <= i32::MAX,
    ensures
        plan_for(
            plan,
            effective_histogram(*frame, 2, cfg.num_buckets as int),
            effective_histogram(*frame, 1, cfg.num_buckets as int),
            effective_histogram(*frame, 0, cfg.num_buckets as int),
            bounds_spec(frame.width as int, frame.height as int, *cfg),
        ),
{
    let r_hist = histogram_or_zero(frame, 2, cfg.num_buckets);
    let g_hist = histogram_or_zero(frame, 1, cfg.num_buckets);
    let b_hist = histogram_or_zero(frame, 0, cfg.num_buckets);
    let bounds = compute_bounds(frame.width as i32, frame.height as i32, cfg);
    build_overlay(&r_hist, &g_hist, &b_hist, &bounds)
}

/// The loop's states. A frame is fully captured, processed and displayed
/// before the next capture begins; cancellation is checked once per
/// iteration, after the display.
#[derive(Clone, Copy, Debug, PartialEq, Eq, Structural)]
pub enum DriverState {
    /// Acquiring the capture device and the display sink.
    Init,
    /// Pulling the next frame from the device.
    Capturing,
    /// The frame was composited and handed to the display sink.
    Displayed,
    /// A cancellation key was seen; the loop exits cleanly.
    Terminated,
    /// The device could not be opened, or a read failed outright.
    Failed,
}

/// What the outside collaborators report back to the loop.
#[derive(Clone, Copy, Debug, PartialEq, Eq, Structural)]
pub enum DriverEvent {
    /// The capture device and display sink are up.
    Opened,
    /// The capture device could not be opened.
    OpenFailed,
    /// A frame arrived, with its size; zero width means no data yet.
    FrameRead { width: i32, height: i32 },
    /// Reading from the device failed outright (not an empty frame).
    ReadFailed,
    /// The key poll after the display saw a key press.
    KeyPressed,
    /// The key poll timed out with no key.
    NoKey,
}

/// What the loop asks its caller to perform next.
#[derive(Clone, Copy, Debug, PartialEq, Eq, Structural)]
pub enum DriverAction {
    /// Pull the next frame from the capture device.
    ReadFrame,
    /// Wait the configured backoff, then pull the next frame.
    BackoffThenRead,
    /// Compute the overlay, draw it into the frame, display the result,
    /// then poll for a key.
    ProcessAndDisplay,
    /// Exit the loop cleanly.
    Exit,
    /// Terminate abnormally: the capture device is unusable.
    ReportFailure,
}

/// The events each state can be answered with. `Terminated` and `Failed`
/// are final: the loop asks for nothing further in them.
pub open spec fn event_fits(s: DriverState, e: DriverEvent) -> bool {
    match s {
        DriverState::Init => e is Opened || e is OpenFailed,
        DriverState::Capturing => e is FrameRead || e is ReadFailed,
        DriverState::Displayed => e is KeyPressed || e is NoKey,
        DriverState::Terminated => false,
        DriverState::Failed => false,
    }
}

/// One decision of the frame loop: from the current state and the event
/// the collaborators report, the next state and the action to perform.
///
/// An empty (zero-width) frame is transient and never fatal: the loop
/// skips the histogram and render work entirely for that iteration and
/// retries after the backoff. A failed read or a failed device open is
/// fatal.
pub fn step(s: DriverState, e: DriverEvent) -> (r: (DriverState, DriverAction))
    requires
        event_fits(s, e),
    ensures
        s is Init && e is Opened ==> r.0 is Capturing && r.1 is ReadFrame,
        s is Init && e is OpenFailed ==> r.0 is Failed && r.1 is ReportFailure,
        s is Capturing && (e matches DriverEvent::FrameRead { width, .. } && width == 0) ==> r.0
            is Capturing && r.1 is BackoffThenRead,
        s is Capturing && (e matches DriverEvent::FrameRead { width, .. } && width != 0) ==> r.0
            is Displayed && r.1 is ProcessAndDisplay,
        s is Capturing && e is ReadFailed ==> r.0 is Failed && r.1 is ReportFailure,
        s is Displayed && e is KeyPressed ==> r.0 is Terminated && r.1 is Exit,
        s is Displayed && e is NoKey ==> r.0 is Capturing && r.1 is ReadFrame,
{
    match (s, e) {
        (DriverState::Init, DriverEvent::Opened) => (DriverState::Capturing, DriverAction::ReadFrame),
        (DriverState::Init, DriverEvent::OpenFailed) => (DriverState::Failed, DriverAction::ReportFailure),
        (DriverState::Capturing, DriverEvent::FrameRead { width, height: _ }) => {
            if width == 0 {
                (DriverState::Capturing, DriverAction::BackoffThenRead)
            } else {
                (DriverState::Displayed, DriverAction::ProcessAndDisplay)
            }
        },
        (DriverState::Capturing, DriverEvent::ReadFailed) => (DriverState::Failed, DriverAction::ReportFailure),
        (DriverState::Displayed, DriverEvent::KeyPressed) => (DriverState::Terminated, DriverAction::Exit),
        (DriverState::Displayed, DriverEvent::NoKey) => (DriverState::Capturing, DriverAction::ReadFrame),
        _ => (DriverState::Failed, DriverAction::ReportFailure),
    }
}

} // verus!
