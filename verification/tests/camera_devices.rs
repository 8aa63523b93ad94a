use poratake_daemon_win::camera_devices::{
    partial_name_matches, select_camera_index, CameraSelectionError,
};

fn cameras() -> Vec<(String, String)> {
    vec![
        ("camera-one".to_string(), "Camera".to_string()),
        ("camera-two".to_string(), "Camera Pro".to_string()),
    ]
}

#[test]
fn defaults_only_when_no_identity_was_requested() {
    assert_eq!(select_camera_index(&cameras(), None, None), Ok(0));
    assert_eq!(
        select_camera_index(&cameras(), Some("missing"), None),
        Err(CameraSelectionError::Unavailable)
    );
}

#[test]
fn device_id_is_case_insensitive_and_wins_over_name() {
    assert_eq!(
        select_camera_index(&cameras(), Some("CAMERA-TWO"), Some("Camera")),
        Ok(1)
    );
}

#[test]
fn unique_exact_and_partial_names_are_supported() {
    assert_eq!(select_camera_index(&cameras(), None, Some("camera")), Ok(0));
    assert_eq!(select_camera_index(&cameras(), None, Some("Pro")), Ok(1));
}

#[test]
fn ambiguous_names_do_not_choose_a_camera() {
    let duplicate_names = vec![
        ("camera-one".to_string(), "Camera".to_string()),
        ("camera-two".to_string(), "Camera".to_string()),
    ];

    assert_eq!(
        select_camera_index(&duplicate_names, None, Some("Camera")),
        Err(CameraSelectionError::AmbiguousName)
    );
    assert_eq!(
        select_camera_index(&cameras(), None, Some("Camera Pro Max")),
        Err(CameraSelectionError::AmbiguousPartialName)
    );
}

#[test]
fn no_devices_means_no_camera() {
    assert_eq!(
        select_camera_index(&Vec::new(), Some("camera-one"), None),
        Err(CameraSelectionError::NoCamera)
    );
}

#[test]
fn blank_requests_count_as_no_request() {
    assert_eq!(select_camera_index(&cameras(), Some("   "), Some("\t")), Ok(0));
    assert_eq!(select_camera_index(&cameras(), Some("  camera-two "), None), Ok(1));
}

#[test]
fn partial_match_lowercases_names_with_unicode_mapping() {
    let devices = vec![
        ("a".to_string(), "ÉCRAN Caméra".to_string()),
        ("b".to_string(), "Other".to_string()),
    ];
    assert_eq!(select_camera_index(&devices, None, Some("écran")), Ok(0));
}

#[test]
fn partial_matches_go_both_ways() {
    let lowered: Vec<Vec<char>> = vec!["camera".chars().collect(), "camera pro".chars().collect()];
    let needle: Vec<char> = "pro".chars().collect();
    assert_eq!(partial_name_matches(&lowered, &needle), vec![1]);
    let long: Vec<char> = "camera pro max".chars().collect();
    assert_eq!(partial_name_matches(&lowered, &long), vec![0, 1]);
}

#[test]
fn selection_errors_have_messages() {
    assert_eq!(CameraSelectionError::NoCamera.message(), "No camera device found");
    assert_eq!(
        CameraSelectionError::Unavailable.message(),
        "The selected camera is no longer available"
    );
}
