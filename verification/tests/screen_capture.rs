use poratake_daemon_win::geometry::Rect;
use poratake_daemon_win::recorder_types::CaptureRect;
use poratake_daemon_win::screen_capture::{
    capture_layout, monitor_contains, pack_ratio, rollback_order, video_bitrate, CropBox,
    TextureSlotPool, VideoTimeline,
};

#[test]
fn video_timeline_starts_at_zero_on_first_frame() {
    let mut timeline = VideoTimeline::new(10);

    assert_eq!(timeline.timestamp_for(50_000_000), Some(0));
    timeline.commit(0);
    assert_eq!(timeline.duration_hns(), 1_000_000);
}

#[test]
fn video_timeline_excludes_paused_source_time() {
    let mut timeline = VideoTimeline::new(10);
    let first = timeline.timestamp_for(10_000_000);
    assert_eq!(first, Some(0));
    timeline.commit(0);
    let second = timeline.timestamp_for(12_000_000);
    assert_eq!(second, Some(2_000_000));
    timeline.commit(2_000_000);

    timeline.pause();
    timeline.observe(42_000_000);
    assert!(timeline.is_resuming());
    assert_eq!(timeline.timestamp_for(52_000_000), None);
    assert!(!timeline.is_resuming());
    assert_eq!(timeline.timestamp_for(53_000_000), Some(3_000_000));
}

#[test]
fn video_timeline_drops_frames_closer_than_one_frame_duration() {
    let mut timeline = VideoTimeline::new(30);
    assert_eq!(timeline.frame_duration(), 333_333);
    assert_eq!(timeline.timestamp_for(0), Some(0));
    timeline.commit(0);
    assert_eq!(timeline.timestamp_for(333_332), None);
    assert_eq!(timeline.timestamp_for(333_333), Some(333_333));
    assert_eq!(timeline.source_time(), 333_333);
}

#[test]
fn texture_pool_never_reuses_an_in_flight_slot() {
    let mut pool = TextureSlotPool::new(2);
    assert_eq!(pool.acquire(), Some(0));
    assert_eq!(pool.acquire(), Some(1));
    assert_eq!(pool.acquire(), None);
    assert!(pool.release(0));
    assert!(!pool.release(0));
    assert_eq!(pool.acquire(), Some(0));
}

#[test]
fn texture_pool_rejects_slots_out_of_range() {
    let mut pool = TextureSlotPool::new(1);
    assert!(!pool.release(5));
    assert_eq!(pool.acquire(), Some(0));
    assert!(pool.release(0));
}

#[test]
fn transaction_rolls_back_published_assets_in_reverse_order() {
    assert_eq!(rollback_order(4), vec![3, 2, 1, 0]);
}

fn monitor() -> Rect {
    Rect { left: 0, top: 0, right: 1920, bottom: 1080 }
}

#[test]
fn window_layout_keeps_the_whole_even_surface() {
    let layout = capture_layout(true, monitor(), None, 801, 601).unwrap();
    assert_eq!((layout.width, layout.height), (800, 600));
    assert!(layout.fitted);
    assert_eq!(layout.crop, CropBox { left: 0, top: 0, right: 800, bottom: 600 });
}

#[test]
fn area_layout_scales_to_the_captured_surface() {
    let area = CaptureRect { x: 100, y: 50, width: 400, height: 300 };
    let layout = capture_layout(false, monitor(), Some(area), 3840, 2160).unwrap();
    assert_eq!(layout.crop, CropBox { left: 200, top: 100, right: 1000, bottom: 700 });
    assert_eq!((layout.width, layout.height), (800, 600));
    assert_eq!(layout.tracker_bounds, area);
    assert!(!layout.fitted);
}

#[test]
fn layout_errors_match_the_recorder_codes() {
    let error = capture_layout(false, monitor(), None, 1, 1080).unwrap_err();
    assert_eq!(error.code, "CAPTURE_ERROR");
    let error = capture_layout(false, Rect { left: 5, top: 0, right: 5, bottom: 10 }, None, 100, 100)
        .unwrap_err();
    assert_eq!(error.message, "Selected display has invalid bounds");
    let outside = CaptureRect { x: 1900, y: 0, width: 400, height: 300 };
    let error = capture_layout(false, monitor(), Some(outside), 1920, 1080).unwrap_err();
    assert_eq!(error.code, "CONFIGURATION_ERROR");
}

#[test]
fn monitor_containment_and_encoder_parameters() {
    assert!(monitor_contains(monitor(), CaptureRect { x: 0, y: 0, width: 1920, height: 1080 }));
    assert!(!monitor_contains(monitor(), CaptureRect { x: 0, y: 0, width: 1921, height: 1080 }));
    assert!(!monitor_contains(monitor(), CaptureRect { x: 10, y: 0, width: i32::MAX, height: 1 }));
    assert_eq!(video_bitrate(1920, 1080, 60), 200_000_000);
    assert_eq!(video_bitrate(1280, 720, 30), 331_776_000u32.min(200_000_000));
    assert_eq!(video_bitrate(100, 100, 30), 50_000_000);
    assert_eq!(pack_ratio(30, 1), (30u64 << 32) | 1);
}
