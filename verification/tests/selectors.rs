use poratake_daemon_win::area_selector::{parse_window_handle, region_hole};
use poratake_daemon_win::geometry::Rect;
use poratake_daemon_win::panel::parse_color;
use poratake_daemon_win::protocol::ResponseError;
use poratake_daemon_win::recorder_types::CaptureRect;
use poratake_daemon_win::selectors::{
    area_bounds, countdown_tick, display_numbers, is_capture_target, target_title, timer_show,
    PendingSelection, TimerShow, WindowFacts,
};

#[test]
fn numbers_the_primary_display_first() {
    assert_eq!(
        display_numbers(&vec![false, true, false]),
        vec![(1, 1), (0, 2), (2, 3)]
    );
    assert_eq!(display_numbers(&vec![]), vec![]);
}

#[test]
fn only_one_display_selection_runs_at_a_time() {
    let mut selection = PendingSelection::new();
    assert!(selection.begin("first").is_ok());
    let error = selection.begin("second").unwrap_err();
    assert_eq!(error.code, "ALREADY_ACTIVE");
    assert_eq!(error.message, "Display selector is already active");
    assert_eq!(selection.take(), Some("first".to_string()));
    assert_eq!(selection.take(), None);
    assert!(selection.begin("third").is_ok());
}

fn facts(class_name: &str) -> WindowFacts<'_> {
    WindowFacts {
        visible: true,
        iconic: false,
        ex_style: 0,
        cloaked: false,
        class_name,
        bounds: Some(Rect { left: 0, top: 0, right: 800, bottom: 600 }),
        pid: 42,
    }
}

#[test]
fn offers_only_real_application_windows() {
    assert!(is_capture_target(&facts("Notepad"), 7));
    assert!(!is_capture_target(&facts("Shell_TrayWnd"), 7));
    assert!(!is_capture_target(&facts("Notepad"), 42));
    let mut tool = facts("Notepad");
    tool.ex_style = 0x80;
    assert!(!is_capture_target(&tool, 7));
    let mut small = facts("Notepad");
    small.bounds = Some(Rect { left: 0, top: 0, right: 49, bottom: 600 });
    assert!(!is_capture_target(&small, 7));
    let mut hidden = facts("Notepad");
    hidden.visible = false;
    assert!(!is_capture_target(&hidden, 7));
    assert_eq!(target_title(String::new(), &"notepad.exe".to_string()), "notepad.exe");
    assert_eq!(target_title("Notes".to_string(), &"notepad.exe".to_string()), "Notes");
}

#[test]
fn countdown_needs_theme_colors_and_a_positive_duration() {
    assert_eq!(
        timer_show(None, Some(5), Some(0), Some(1), Some(2)),
        Ok(TimerShow { x: 100, y: 5, duration: 1, background: 1, foreground: 2 })
    );
    assert_eq!(timer_show(None, None, None, Some(1), Some(2)).unwrap().duration, 5);
    let error = timer_show(None, None, None, None, Some(2)).unwrap_err();
    assert_eq!(error.code, "INVALID_PARAMS");
    assert_eq!(error.message, "show requires theme colors");
    let mut remaining = 2;
    assert!(!countdown_tick(&mut remaining));
    assert!(countdown_tick(&mut remaining));
    assert_eq!(remaining, 0);
}

#[test]
fn show_rejects_missing_or_invalid_theme_colors() {
    let cases: [(Option<&str>, Option<&str>); 3] = [
        (None, None),
        (Some("invalid"), Some("#ffffff")),
        (Some("#000000"), Some("invalid")),
    ];
    for (color, foreground) in cases {
        let result = timer_show(None, None, None, parse_color(color), parse_color(foreground));
        assert_eq!(
            result,
            Err(ResponseError {
                code: "INVALID_PARAMS".to_string(),
                message: "show requires theme colors".to_string(),
            })
        );
    }
    assert_eq!(parse_color(Some("#ffffff")), Some(0x00FF_FFFF));
    assert_eq!(parse_color(Some("#000000")), Some(0));
}

#[test]
fn screenshot_areas_need_a_positive_size() {
    assert_eq!(
        area_bounds(CaptureRect { x: 10, y: 20, width: 30, height: 40 }),
        Some(Rect { left: 10, top: 20, right: 40, bottom: 60 })
    );
    assert_eq!(area_bounds(CaptureRect { x: 10, y: 20, width: 0, height: 40 }), None);
}

#[test]
fn window_handles_are_non_zero_decimal_numbers() {
    assert_eq!(parse_window_handle(Some("65538")), Some(65538));
    assert_eq!(parse_window_handle(Some("+7")), Some(7));
    assert_eq!(parse_window_handle(Some("0")), None);
    assert_eq!(parse_window_handle(Some("-1")), None);
    assert_eq!(parse_window_handle(Some("12ab")), None);
    assert_eq!(parse_window_handle(Some("")), None);
    assert_eq!(parse_window_handle(Some("99999999999999999999999")), None);
    assert_eq!(parse_window_handle(None), None);
}

#[test]
fn window_regions_need_all_dimensions_or_none() {
    assert_eq!(region_hole((None, None, None, None, None, None, None)), Ok(None));
    assert_eq!(
        region_hole((Some(1), Some(2), Some(3), Some(4), Some(5), Some(6), Some(0))),
        Ok(Some((1, 2, 3, 4, 5, 6, 0)))
    );
    let partial = region_hole((Some(1), None, None, None, None, None, None)).unwrap_err();
    assert_eq!(partial.message, "setWindowRegion requires complete region dimensions");
    assert!(region_hole((Some(1), Some(2), Some(3), Some(4), Some(5), Some(6), Some(-1))).is_err());
}
