use poratake_daemon_win::recording_camera::{
    adjusted_camera_timestamp, best_format, bridge_source_time, buffer_pending_frame,
    camera_bitrate, camera_duration_hns, divide_ratio, duration_hns, format_from_packed,
    format_score, pack_ratio, validate_frame_rate, CameraCapturePoint, CameraFormat,
    CameraTimeline, FrameDisposition, MonotonicTime,
};
use std::collections::VecDeque;

const BASE: u128 = 5_000_000_000;

fn at_millis(millis: u128) -> MonotonicTime {
    MonotonicTime { nanos: BASE + millis * 1_000_000 }
}

#[test]
fn camera_timeline_uses_source_timestamps_despite_callback_jitter() {
    let capture = CameraCapturePoint {
        source_time: 20_000_000,
        arrived_at: at_millis(700),
    };
    let origin = bridge_source_time(capture, at_millis(800));

    assert_eq!(origin, 21_000_000);
    assert_eq!(adjusted_camera_timestamp(22_000_000, origin, 0), 1_000_000);
    assert_eq!(adjusted_camera_timestamp(23_000_000, origin, 0), 2_000_000);
}

#[test]
fn camera_timeline_removes_source_timestamp_pause_gap() {
    assert_eq!(
        adjusted_camera_timestamp(80_000_000, 20_000_000, 30_000_000),
        30_000_000
    );
}

#[test]
fn camera_duration_includes_the_final_sample() {
    let frame_duration = 333_333;

    assert_eq!(camera_duration_hns(0, frame_duration), frame_duration);
    assert_eq!(
        camera_duration_hns(frame_duration * 4, frame_duration),
        frame_duration * 5
    );
}

#[test]
fn bridging_backwards_subtracts_the_gap() {
    let capture = CameraCapturePoint { source_time: 20_000_000, arrived_at: at_millis(800) };
    assert_eq!(bridge_source_time(capture, at_millis(700)), 19_000_000);
    assert_eq!(duration_hns(150), 1);
    assert_eq!(duration_hns(u128::MAX), i64::MAX);
}

#[test]
fn timestamps_never_go_negative() {
    assert_eq!(adjusted_camera_timestamp(10, 20, 0), 0);
    assert_eq!(adjusted_camera_timestamp(i64::MIN, i64::MAX, 0), 0);
}

#[test]
fn prefers_formats_close_to_720p_at_the_requested_rate() {
    let hd30 = CameraFormat { width: 1280, height: 720, frame_rate_numerator: 30, frame_rate_denominator: 1 };
    let hd60 = CameraFormat { width: 1280, height: 720, frame_rate_numerator: 60, frame_rate_denominator: 1 };
    let full = CameraFormat { width: 1920, height: 1080, frame_rate_numerator: 30, frame_rate_denominator: 1 };
    assert_eq!(format_score(hd30, 30), 0);
    assert_eq!(format_score(full, 30), 1_000_000);
    assert_eq!(format_score(hd60, 30), 30);
    assert_eq!(best_format(&vec![full, hd60, hd30], 30), Some(hd30));
    assert_eq!(best_format(&vec![full, hd60, hd60], 60), Some(hd60));
    assert_eq!(best_format(&Vec::new(), 30), None);
}

#[test]
fn divides_frame_rate_ratios_with_rounding() {
    assert_eq!(divide_ratio(30_000, 1_001), 30);
    assert_eq!(divide_ratio(1, 3), 1);
    assert_eq!(divide_ratio(0, 1), 1);
}

#[test]
fn packs_and_unpacks_media_ratios() {
    let size = pack_ratio(1280, 720);
    assert_eq!(size, (1280u64 << 32) | 720);
    let format = format_from_packed(size, pack_ratio(30, 1)).expect("usable format");
    assert_eq!(format, CameraFormat { width: 1280, height: 720, frame_rate_numerator: 30, frame_rate_denominator: 1 });
    let odd = format_from_packed(pack_ratio(1281, 720), pack_ratio(30, 1)).unwrap_err();
    assert_eq!(odd.code, "CONFIGURATION_ERROR");
    assert_eq!(odd.message, "Camera format has invalid dimensions or frame rate");
    assert!(format_from_packed(size, pack_ratio(30, 0)).is_err());
}

#[test]
fn bitrate_is_eight_bits_per_pixel_within_bounds() {
    assert_eq!(camera_bitrate(1280, 720), 7_372_800);
    assert_eq!(camera_bitrate(320, 240), 4_000_000);
    assert_eq!(camera_bitrate(7680, 4320), 40_000_000);
    assert_eq!(camera_bitrate(u32::MAX, u32::MAX), 40_000_000);
}

#[test]
fn frame_rate_must_be_between_1_and_240() {
    assert!(validate_frame_rate(1).is_ok());
    assert!(validate_frame_rate(240).is_ok());
    let error = validate_frame_rate(241).unwrap_err();
    assert_eq!(error.code, "CONFIGURATION_ERROR");
    assert_eq!(error.message, "Camera frame rate must be between 1 and 240");
    assert!(validate_frame_rate(0).is_err());
}

#[test]
fn pending_frames_keep_only_the_newest_eight() {
    let mut pending = VecDeque::new();
    for frame in 0..10 {
        buffer_pending_frame(&mut pending, frame);
    }
    assert_eq!(pending.into_iter().collect::<Vec<_>>(), vec![2, 3, 4, 5, 6, 7, 8, 9]);
}

#[test]
fn timeline_holds_frames_until_synchronized_and_removes_pauses() {
    let mut timeline = CameraTimeline::new();
    let first = CameraCapturePoint { source_time: 20_000_000, arrived_at: at_millis(700) };
    assert_eq!(timeline.frame_arrived(first), FrameDisposition::Hold);
    assert_eq!(timeline.pause().unwrap_err().message, "Cannot pause camera before screen synchronization");
    assert!(timeline.finished_duration(333_333).is_err());
    timeline.sync(at_millis(800)).expect("synchronized");
    assert_eq!(timeline.source_origin, Some(21_000_000));
    assert_eq!(timeline.sync(at_millis(900)).unwrap_err().message, "Camera is already synchronized");

    assert_eq!(timeline.frame_timestamp(20_500_000).unwrap(), None);
    assert_eq!(timeline.frame_timestamp(22_000_000).unwrap(), Some(1_000_000));
    timeline.frame_written(1_000_000);

    let second = CameraCapturePoint { source_time: 23_000_000, arrived_at: at_millis(1000) };
    assert_eq!(timeline.frame_arrived(second), FrameDisposition::Write);
    timeline.pause().expect("paused");
    assert_eq!(timeline.pause_started, Some(23_000_000));
    assert_eq!(timeline.frame_arrived(second), FrameDisposition::Skip);
    timeline.resume().expect("resumed");
    assert_eq!(timeline.resume().unwrap_err().message, "Camera is not paused");

    assert_eq!(timeline.frame_timestamp(33_000_000).unwrap(), Some(2_000_000));
    assert_eq!(timeline.total_pause, 10_000_000);
    timeline.frame_written(2_000_000);
    assert_eq!(timeline.frame_timestamp(32_000_000).unwrap(), None);
    assert_eq!(timeline.first_written, Some(1_000_000));
    assert_eq!(timeline.finished_duration(333_333).unwrap(), 2_333_333);
}
