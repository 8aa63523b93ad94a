use poratake_daemon_win::freeze_screen::is_frozen;
use poratake_daemon_win::ocr::{fit_ocr_dimensions, recognized_text};

#[test]
fn empty_capture_is_not_frozen() {
    assert!(!is_frozen(0));
}

#[test]
fn captured_frame_is_frozen() {
    assert!(is_frozen(1));
}

#[test]
fn enlarges_small_images_for_text_recognition() {
    assert_eq!(fit_ocr_dimensions(1009, 730, 2600), (2018, 1460));
}

#[test]
fn enlarges_images_only_up_to_the_ocr_limit() {
    assert_eq!(fit_ocr_dimensions(1920, 1080, 2600), (2600, 1462));
}

#[test]
fn constrains_landscape_images_without_changing_aspect_ratio() {
    assert_eq!(fit_ocr_dimensions(7680, 4320, 2600), (2600, 1462));
}

#[test]
fn constrains_portrait_images_without_changing_aspect_ratio() {
    assert_eq!(fit_ocr_dimensions(4320, 7680, 2600), (1462, 2600));
}

#[test]
fn leaves_degenerate_sizes_alone() {
    assert_eq!(fit_ocr_dimensions(0, 10, 2600), (0, 10));
    assert_eq!(fit_ocr_dimensions(10, 0, 2600), (10, 0));
    assert_eq!(fit_ocr_dimensions(10, 20, 0), (10, 20));
}

#[test]
fn keeps_a_thin_side_at_least_one_pixel() {
    assert_eq!(fit_ocr_dimensions(5000, 1, 2600), (2600, 1));
}

#[test]
fn saturates_instead_of_overflowing() {
    assert_eq!(fit_ocr_dimensions(u32::MAX, u32::MAX, u32::MAX), (u32::MAX, u32::MAX));
}

#[test]
fn joins_recognized_lines_and_trims_the_text() {
    let lines = vec!["  Hello".to_string(), "world ".to_string(), "".to_string()];
    assert_eq!(recognized_text(&lines), "Hello\nworld");
    assert_eq!(recognized_text(&vec![]), "");
    assert_eq!(recognized_text(&vec!["one".to_string()]), "one");
}
