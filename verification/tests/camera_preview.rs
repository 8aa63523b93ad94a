use poratake_daemon_win::camera_preview::{
    default_position, replaced_error, requested_size, CameraConfig, CameraLifecycle,
    CameraWindowError,
};
use poratake_daemon_win::geometry::Rect;

#[test]
fn show_resets_unspecified_settings_and_reports_changes() {
    let mut config = CameraConfig::new();
    assert_eq!(config.resolution, "720p");
    assert!(config.apply_show(Some("cam"), None, Some("1080p"), Some(true)));
    assert_eq!(config.device_id.as_deref(), Some("cam"));
    assert!(config.flipped);
    assert!(!config.apply_show(Some("cam"), None, Some("1080p"), None));
    assert!(!config.flipped);
    assert!(config.apply_show(Some("cam"), None, None, None));
    assert_eq!(config.resolution, "720p");
}

#[test]
fn update_changes_only_what_it_carries() {
    let mut config = CameraConfig::new();
    config.apply_show(Some("cam"), Some("Camera"), None, Some(true));
    assert!(!config.apply_update(None, None, None, Some(false)));
    assert!(!config.flipped);
    assert_eq!(config.device_name.as_deref(), Some("Camera"));
    assert!(config.apply_update(Some(None), None, None, None));
    assert_eq!(config.device_id, None);
    assert!(!config.apply_update(None, Some(Some("Camera")), Some("720p"), None));
    assert!(config.apply_update(None, None, Some("4k"), None));
}

#[test]
fn maps_resolution_names_to_capture_sizes() {
    assert_eq!(requested_size("1080p"), (1920, 1080));
    assert_eq!(requested_size("480p"), (640, 480));
    assert_eq!(requested_size("4k"), (3840, 2160));
    assert_eq!(requested_size("720p"), (1280, 720));
    assert_eq!(requested_size("8k"), (1280, 720));
}

#[test]
fn newer_generations_replace_older_requests() {
    let mut lifecycle = CameraLifecycle::new();
    let (restart, generation) = lifecycle.begin_show(false);
    assert!(restart);
    assert_eq!(generation, 1);
    assert!(lifecycle.update(generation, Some(true), None));
    assert!(lifecycle.mark_visible(generation));
    assert_eq!(lifecycle, CameraLifecycle { generation: 1, running: true, visible: true });
    assert_eq!(lifecycle.begin_show(false), (false, 1));
    let hidden = lifecycle.advance_generation();
    assert!(!lifecycle.is_generation(generation));
    assert!(!lifecycle.update(generation, Some(true), Some(true)));
    assert!(!lifecycle.mark_visible(hidden));
    let mut wrapped = CameraLifecycle { generation: u64::MAX, running: true, visible: true };
    assert_eq!(wrapped.advance_generation(), 0);
}

#[test]
fn window_errors_have_codes_and_messages() {
    assert_eq!(CameraWindowError::Create.code(), "WINDOW_ERROR");
    assert_eq!(
        CameraWindowError::ContentProtection.message(),
        "Failed to update camera preview content protection"
    );
    assert_eq!(replaced_error().code, "CAMERA_CANCELLED");
}

#[test]
fn a_new_preview_starts_near_the_primary_display_corner() {
    let left = Rect { left: -1920, top: 0, right: 0, bottom: 1080 };
    let primary = Rect { left: 0, top: 0, right: 2560, bottom: 1440 };
    assert_eq!(default_position(&vec![(false, left), (true, primary)], 200), (2328, 1208));
    assert_eq!(default_position(&vec![(false, left)], 200), (-232, 848));
    assert_eq!(default_position(&vec![], 200), (100, 100));
}
