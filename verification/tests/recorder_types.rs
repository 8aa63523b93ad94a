use poratake_daemon_win::recorder_types::{
    recording_project_dir, CaptureRect, RecordingConfig, StartRequest,
};
use std::path::Path;

fn start_request(output_path: &str) -> StartRequest {
    StartRequest {
        x: None,
        y: None,
        width: None,
        height: None,
        display_id: None,
        window_id: None,
        frame_rate: 60,
        output_path: output_path.to_string(),
        keyboard_enabled: false,
        include_audio: false,
        mic_enabled: false,
        mic_device_id: None,
        mic_device_name: None,
        camera_enabled: false,
        camera_device_id: None,
        camera_device_name: None,
        ios_device_id: None,
    }
}

#[test]
fn parses_a_window_handle_that_does_not_fit_in_32_bits() {
    let handle: i64 = 0x0000_0002_0000_1234;
    let wire = StartRequest { window_id: Some(handle), ..start_request("/tmp/recording.mov") };

    let Ok(config) = RecordingConfig::from_wire(wire, true) else {
        panic!("window recording config should parse");
    };

    assert_eq!(config.window_id, Some(handle as isize));
}

#[test]
fn rejects_a_null_window_handle() {
    let wire = StartRequest { window_id: Some(0), ..start_request("/tmp/recording.mov") };

    let Err(error) = RecordingConfig::from_wire(wire, true) else {
        panic!("a null window handle should be rejected");
    };

    assert_eq!(error.code, "INVALID_PARAMS");
}

#[test]
fn ignores_an_unrepresentable_display_id_for_an_area_capture() {
    let wire = StartRequest {
        x: Some(0),
        y: Some(0),
        width: Some(1920),
        height: Some(1080),
        display_id: Some(u32::MAX),
        ..start_request("/tmp/recording.mov")
    };

    let Ok(config) = RecordingConfig::from_wire(wire, true) else {
        panic!("area recording config should parse");
    };

    assert_eq!(config.display_id, None);
    assert!(config.capture_rect.is_some());
}

#[test]
fn rejects_frame_rates_outside_the_shared_range() {
    for frame_rate in [0, 241] {
        let wire = StartRequest { frame_rate, ..start_request("/tmp/recording.mov") };

        let Err(error) = RecordingConfig::from_wire(wire, true) else {
            panic!("invalid frame rate should be rejected");
        };
        assert_eq!(error.code, "INVALID_PARAMS");
    }
}

#[test]
fn parses_camera_config_and_derives_project_directory() {
    let wire = StartRequest {
        camera_enabled: true,
        camera_device_id: Some("camera-id".to_string()),
        camera_device_name: Some("Camera Name".to_string()),
        ..start_request("/tmp/recording.mov")
    };
    let Ok(config) = RecordingConfig::from_wire(wire, true) else {
        panic!("camera recording config should parse");
    };

    assert!(config.camera_enabled);
    assert_eq!(config.camera_device_id.as_deref(), Some("camera-id"));
    assert_eq!(config.camera_device_name.as_deref(), Some("Camera Name"));
    let Ok(derived_project_dir) = recording_project_dir(&config.output_path) else {
        panic!("recording project directory should derive from outputPath");
    };
    assert_eq!(derived_project_dir, Path::new("/tmp"));
}

#[test]
fn a_full_display_recording_keeps_its_display() {
    let wire = StartRequest { display_id: Some(2), ..start_request("/tmp/recording.mov") };
    let Ok(config) = RecordingConfig::from_wire(wire, true) else {
        panic!("display recording config should parse");
    };
    assert_eq!(config.display_id, Some(2));
    assert_eq!(config.frame_rate, 60);
    assert!(config.capture_rect.is_none());
}

#[test]
fn rejects_a_display_id_beyond_i32_for_a_display_recording() {
    let wire = StartRequest { display_id: Some(u32::MAX), ..start_request("/tmp/recording.mov") };
    let Err(error) = RecordingConfig::from_wire(wire, true) else {
        panic!("display id out of range");
    };
    assert_eq!(error.code, "INVALID_PARAMS");
    assert_eq!(error.message, "displayId is outside the supported range");
}

#[test]
fn rejects_a_capture_area_whose_edges_overflow() {
    let wire = StartRequest {
        x: Some(i32::MAX),
        y: Some(0),
        width: Some(1),
        height: Some(10),
        ..start_request("/tmp/recording.mov")
    };
    let Err(error) = RecordingConfig::from_wire(wire, true) else {
        panic!("overflowing capture area");
    };
    assert_eq!(error.message, "capture area is outside the supported coordinate range");
}

#[test]
fn a_partial_capture_area_records_the_display() {
    let wire = StartRequest { x: Some(5), width: Some(10), ..start_request("/tmp/recording.mov") };
    let Ok(config) = RecordingConfig::from_wire(wire, true) else {
        panic!("partial coordinates are ignored");
    };
    assert!(config.capture_rect.is_none());
}

#[test]
fn rejects_empty_output_ios_devices_and_missing_directories() {
    let Err(error) = RecordingConfig::from_wire(start_request(""), true) else {
        panic!("empty output path");
    };
    assert_eq!(error.message, "outputPath is required");

    let wire = StartRequest {
        ios_device_id: Some("phone".to_string()),
        ..start_request("/tmp/recording.mov")
    };
    let Err(error) = RecordingConfig::from_wire(wire, true) else {
        panic!("ios recording");
    };
    assert_eq!(error.code, "CONFIGURATION_ERROR");
    assert_eq!(error.message, "iOS device recording is not supported on Windows");

    let Err(error) = RecordingConfig::from_wire(start_request("/missing/recording.mov"), false)
    else {
        panic!("missing directory");
    };
    assert_eq!(error.message, "outputPath parent directory does not exist");
}

#[test]
fn validates_the_frame_rate_bounds() {
    assert!(StartRequest { frame_rate: 1, ..start_request("/tmp/a.mov") }.validate().is_ok());
    assert!(StartRequest { frame_rate: 240, ..start_request("/tmp/a.mov") }.validate().is_ok());
    assert_eq!(
        StartRequest { frame_rate: 0, ..start_request("/tmp/a.mov") }.validate(),
        Err("frameRate must be between 1 and 240".to_string())
    );
}

#[test]
fn capture_rect_edges_are_checked() {
    let rect = CaptureRect { x: 10, y: 20, width: 30, height: 40 };
    assert_eq!(rect.right(), Some(40));
    assert_eq!(rect.bottom(), Some(60));
    assert_eq!(CaptureRect { x: i32::MAX, ..rect }.right(), None);
}
