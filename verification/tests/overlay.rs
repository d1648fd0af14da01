use camhist::driver::{compute_bounds, process_frame, step, Config, DriverAction, DriverEvent, DriverState};
use camhist::geometry::{compute_point, Rect, ScreenPoint};
use camhist::histogram::{
    bucket_of, compute_histogram, histogram_or_zero, make_zero_histogram, max_count_of, Frame,
    HistError,
};
use camhist::render::{build_overlay, ChannelColor};

fn gray_frame(width: u32, height: u32, num_channels: u32, value: u8) -> Frame {
    let len = (width * height * num_channels) as usize;
    Frame { width, height, num_channels, data: vec![value; len] }
}

#[test]
fn standard_config_values() {
    let c = Config::standard();
    assert_eq!(c.num_buckets, 256);
    assert_eq!(c.hist_width, 600);
    assert_eq!(c.hist_height, 150);
    assert_eq!(c.hist_pad, 32);
    assert_eq!(c.poll_timeout_ms, 10);
    assert_eq!(c.backoff_ms, 50000);
}

#[test]
fn bucket_mapping_full_resolution() {
    assert_eq!(bucket_of(0, 256), 0);
    assert_eq!(bucket_of(128, 256), 128);
    assert_eq!(bucket_of(255, 256), 255);
}

#[test]
fn bucket_mapping_coarse_buckets() {
    // 4 buckets of width 64.
    assert_eq!(bucket_of(0, 4), 0);
    assert_eq!(bucket_of(63, 4), 0);
    assert_eq!(bucket_of(64, 4), 1);
    assert_eq!(bucket_of(128, 4), 2);
    assert_eq!(bucket_of(255, 4), 3);
}

#[test]
fn point_at_origin_bucket_zero_count() {
    // bounds = {0,0,600,150}, 256 buckets, bucket 0 with count 0 of 100.
    let bounds = Rect { x: 0, y: 0, width: 600, height: 150 };
    let p = compute_point(0, 0, 256, 100, &bounds);
    assert_eq!(p, ScreenPoint { x: 0, y: 150 });
}

#[test]
fn point_at_last_bucket_full_count() {
    // Bucket 255 at the shared maximum: x floors 255/256 * 600 to 597,
    // and the full count plots on the top edge.
    let bounds = Rect { x: 0, y: 0, width: 600, height: 150 };
    let p = compute_point(255, 100, 256, 100, &bounds);
    assert_eq!(p, ScreenPoint { x: 597, y: 0 });
}

#[test]
fn point_at_bucket_count_boundary() {
    // Bucket index num_buckets maps exactly onto the right edge.
    let bounds = Rect { x: 0, y: 0, width: 600, height: 150 };
    let p = compute_point(256, 100, 256, 100, &bounds);
    assert_eq!(p, ScreenPoint { x: 600, y: 0 });
}

#[test]
fn zero_max_count_plots_bottom_edge() {
    let bounds = Rect { x: 7, y: 11, width: 600, height: 150 };
    for bucket in [0u32, 1, 100, 255, 256] {
        let p = compute_point(bucket, 0, 256, 0, &bounds);
        assert_eq!(p.y, 11 + 150);
    }
}

#[test]
fn point_y_never_increases_with_count() {
    let bounds = Rect { x: 0, y: 0, width: 600, height: 150 };
    let mut last_y = i32::MAX;
    for count in 0..=100u32 {
        let p = compute_point(10, count, 256, 100, &bounds);
        assert!(p.y <= last_y);
        assert!(p.y >= bounds.y && p.y <= bounds.y + bounds.height);
        last_y = p.y;
    }
}

#[test]
fn point_x_never_decreases_with_bucket() {
    let bounds = Rect { x: -3, y: 0, width: 600, height: 150 };
    let mut last_x = i32::MIN;
    for bucket in 0..=256u32 {
        let p = compute_point(bucket, 0, 256, 5, &bounds);
        assert!(p.x >= last_x);
        last_x = p.x;
    }
    assert_eq!(compute_point(0, 0, 256, 5, &bounds).x, -3);
    assert_eq!(compute_point(256, 0, 256, 5, &bounds).x, -3 + 600);
}

#[test]
fn uniform_gray_frame_single_spike() {
    // All samples are 128, so each channel histogram has one nonzero
    // bucket, at index 128, holding the pixel count.
    let frame = gray_frame(4, 2, 3, 128);
    for channel in 0..3u32 {
        let hist = compute_histogram(&frame, channel, 256).unwrap();
        assert_eq!(hist.len(), 256);
        for (i, &count) in hist.iter().enumerate() {
            if i == 128 {
                assert_eq!(count, 8);
            } else {
                assert_eq!(count, 0);
            }
        }
        let total: u64 = hist.iter().map(|&c| c as u64).sum();
        assert_eq!(total, 8);
    }
    let r = compute_histogram(&frame, 2, 256).unwrap();
    let g = compute_histogram(&frame, 1, 256).unwrap();
    let b = compute_histogram(&frame, 0, 256).unwrap();
    assert_eq!(max_count_of(&r, &g, &b), 8);
}

#[test]
fn histogram_counts_channels_independently() {
    // Two pixels with distinct per-channel samples.
    let frame = Frame {
        width: 2,
        height: 1,
        num_channels: 3,
        data: vec![10, 200, 30, 10, 201, 31],
    };
    let h0 = compute_histogram(&frame, 0, 256).unwrap();
    assert_eq!(h0[10], 2);
    let h1 = compute_histogram(&frame, 1, 256).unwrap();
    assert_eq!(h1[200], 1);
    assert_eq!(h1[201], 1);
    let h2 = compute_histogram(&frame, 2, 256).unwrap();
    assert_eq!(h2[30], 1);
    assert_eq!(h2[31], 1);
}

#[test]
fn histogram_sum_matches_pixel_count() {
    let frame = Frame {
        width: 3,
        height: 2,
        num_channels: 1,
        data: vec![0, 255, 17, 17, 64, 200],
    };
    let h = compute_histogram(&frame, 0, 256).unwrap();
    let total: u64 = h.iter().map(|&c| c as u64).sum();
    assert_eq!(total, 6);
    assert_eq!(h[17], 2);
    assert_eq!(h[0], 1);
    assert_eq!(h[255], 1);
}

#[test]
fn histogram_channel_out_of_range() {
    let frame = gray_frame(2, 2, 3, 50);
    assert_eq!(compute_histogram(&frame, 3, 256), Err(HistError::ChannelOutOfRange));
}

#[test]
fn histogram_malformed_frame() {
    let frame = Frame { width: 2, height: 2, num_channels: 3, data: vec![0; 5] };
    assert_eq!(compute_histogram(&frame, 0, 256), Err(HistError::MalformedFrame));
}

#[test]
fn histogram_or_zero_substitutes_on_error() {
    let frame = Frame { width: 2, height: 2, num_channels: 3, data: vec![0; 5] };
    let h = histogram_or_zero(&frame, 0, 256);
    assert_eq!(h.len(), 256);
    assert!(h.iter().all(|&c| c == 0));
}

#[test]
fn histogram_or_zero_passes_through_on_success() {
    let frame = gray_frame(2, 2, 3, 9);
    let h = histogram_or_zero(&frame, 1, 256);
    assert_eq!(h[9], 4);
}

#[test]
fn zero_histogram_shape() {
    let h = make_zero_histogram(16);
    assert_eq!(h.len(), 16);
    assert!(h.iter().all(|&c| c == 0));
}

#[test]
fn max_count_over_all_three_channels() {
    let r = vec![1, 0, 7];
    let g = vec![2, 9, 0];
    let b = vec![3, 3, 3];
    assert_eq!(max_count_of(&r, &g, &b), 9);
}

#[test]
fn max_count_of_all_zero_is_zero() {
    let z = vec![0u32; 8];
    assert_eq!(max_count_of(&z, &z.clone(), &z.clone()), 0);
}

#[test]
fn overlay_plan_small_exact() {
    let bounds = Rect { x: 0, y: 0, width: 100, height: 100 };
    let r = vec![0u32, 2];
    let g = vec![1u32, 1];
    let b = vec![2u32, 0];
    let plan = build_overlay(&r, &g, &b, &bounds);
    assert_eq!(plan.segments.len(), 3);
    let s0 = plan.segments[0];
    assert_eq!(s0.color, ChannelColor::Red);
    assert_eq!(s0.p0, ScreenPoint { x: 0, y: 100 });
    assert_eq!(s0.p1, ScreenPoint { x: 50, y: 0 });
    let s1 = plan.segments[1];
    assert_eq!(s1.color, ChannelColor::Green);
    assert_eq!(s1.p0, ScreenPoint { x: 0, y: 50 });
    assert_eq!(s1.p1, ScreenPoint { x: 50, y: 50 });
    let s2 = plan.segments[2];
    assert_eq!(s2.color, ChannelColor::Blue);
    assert_eq!(s2.p0, ScreenPoint { x: 0, y: 0 });
    assert_eq!(s2.p1, ScreenPoint { x: 50, y: 100 });
    assert_eq!(plan.outline, Rect { x: 0, y: 0, width: 100, height: 100 });
}

#[test]
fn overlay_outline_collapses_when_all_counts_zero() {
    // With a shared maximum of zero every point sits on the bottom edge,
    // so the outline derived from the mapping has zero height.
    let bounds = Rect { x: 10, y: 20, width: 100, height: 50 };
    let z = vec![0u32; 4];
    let plan = build_overlay(&z, &z.clone(), &z.clone(), &bounds);
    assert_eq!(plan.outline, Rect { x: 10, y: 70, width: 100, height: 0 });
}

#[test]
fn rendering_twice_is_identical() {
    let bounds = Rect { x: 5, y: 9, width: 600, height: 150 };
    let r = vec![4u32, 0, 9, 2];
    let g = vec![0u32, 1, 2, 3];
    let b = vec![9u32, 9, 0, 1];
    let plan1 = build_overlay(&r, &g, &b, &bounds);
    let plan2 = build_overlay(&r, &g, &b, &bounds);
    assert_eq!(plan1, plan2);
}

#[test]
fn process_frame_twice_is_identical() {
    let frame = Frame {
        width: 2,
        height: 2,
        num_channels: 3,
        data: vec![0, 10, 20, 30, 40, 50, 60, 70, 80, 90, 100, 110],
    };
    let cfg = Config::standard();
    let plan1 = process_frame(&frame, &cfg);
    let plan2 = process_frame(&frame, &cfg);
    assert_eq!(plan1, plan2);
    assert_eq!(plan1.segments.len(), 3 * 255);
}

#[test]
fn bounds_centered_in_standard_frame() {
    let cfg = Config::standard();
    let r = compute_bounds(640, 480, &cfg);
    assert_eq!(r, Rect { x: 20, y: 298, width: 600, height: 150 });
}

#[test]
fn bounds_for_narrow_frame() {
    let cfg = Config::standard();
    let r = compute_bounds(100, 480, &cfg);
    assert_eq!(r.x, -250);
    assert_eq!(r.width, 600);
}

#[test]
fn empty_frame_backs_off_and_retries() {
    // A zero-width frame must skip processing entirely and retry.
    let (next, action) = step(
        DriverState::Capturing,
        DriverEvent::FrameRead { width: 0, height: 480 },
    );
    assert_eq!(next, DriverState::Capturing);
    assert_eq!(action, DriverAction::BackoffThenRead);
}

#[test]
fn full_frame_is_processed_and_displayed() {
    let (next, action) = step(
        DriverState::Capturing,
        DriverEvent::FrameRead { width: 640, height: 480 },
    );
    assert_eq!(next, DriverState::Displayed);
    assert_eq!(action, DriverAction::ProcessAndDisplay);
}

#[test]
fn driver_lifecycle() {
    let (s, a) = step(DriverState::Init, DriverEvent::Opened);
    assert_eq!((s, a), (DriverState::Capturing, DriverAction::ReadFrame));
    let (s, a) = step(s, DriverEvent::FrameRead { width: 640, height: 480 });
    assert_eq!((s, a), (DriverState::Displayed, DriverAction::ProcessAndDisplay));
    let (s, a) = step(s, DriverEvent::NoKey);
    assert_eq!((s, a), (DriverState::Capturing, DriverAction::ReadFrame));
    let (s, a) = step(s, DriverEvent::FrameRead { width: 640, height: 480 });
    assert_eq!((s, a), (DriverState::Displayed, DriverAction::ProcessAndDisplay));
    let (s, a) = step(s, DriverEvent::KeyPressed);
    assert_eq!((s, a), (DriverState::Terminated, DriverAction::Exit));
}

#[test]
fn driver_failure_paths() {
    assert_eq!(
        step(DriverState::Init, DriverEvent::OpenFailed),
        (DriverState::Failed, DriverAction::ReportFailure)
    );
    assert_eq!(
        step(DriverState::Capturing, DriverEvent::ReadFailed),
        (DriverState::Failed, DriverAction::ReportFailure)
    );
}

#[test]
fn frame_well_formedness_check() {
    let good = gray_frame(3, 3, 3, 1);
    assert!(good.check_well_formed());
    let bad = Frame { width: 3, height: 3, num_channels: 3, data: vec![1; 26] };
    assert!(!bad.check_well_formed());
}
