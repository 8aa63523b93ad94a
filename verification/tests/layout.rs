use poratake_daemon_win::all_in_one::{
    choose_panel_rect, logical_panel_rect, panel_center, MonitorProbe, logical_panel_width, panel_button_at, panel_button_columns, panel_button_for_column,
    panel_column_count, scaled_for_dpi, PanelButton, BUTTON_WIDTH, PANEL_HEIGHT, PANEL_WIDTH,
    PANEL_WIDTH_WITHOUT_RECORDING,
};
use poratake_daemon_win::area_selector::scaled_hole_rect;
use poratake_daemon_win::geometry::{scale_for_dpi, Point, Rect};
use poratake_daemon_win::panel::{
    button_at, button_fill, button_rect, button_state, panel_height, panel_width, NEUTRAL_BUTTON,
    PANEL_BUTTON_GAP, PANEL_BUTTON_HEIGHT, PANEL_PADDING,
};

#[test]
fn enabled_geometry_maps_six_equal_columns() {
    let expected = [
        PanelButton::Close,
        PanelButton::AspectRatio,
        PanelButton::Size,
        PanelButton::Screenshot,
        PanelButton::Record,
        PanelButton::Drag,
    ];

    assert_eq!(logical_panel_width(true), 288);
    assert_eq!(panel_column_count(true), 6);
    for (column, button) in expected.into_iter().enumerate() {
        let point = Point {
            x: column as i32 * BUTTON_WIDTH + BUTTON_WIDTH / 2,
            y: PANEL_HEIGHT / 2,
        };
        assert_eq!(panel_button_at(PANEL_WIDTH, PANEL_HEIGHT, point, true), Some(button));
        assert_eq!(
            panel_button_columns(button, true),
            Some((column as i32, column as i32 + 1))
        );
    }
}

#[test]
fn disabled_geometry_maps_five_equal_columns_without_recording() {
    let expected = [
        PanelButton::Close,
        PanelButton::AspectRatio,
        PanelButton::Size,
        PanelButton::Screenshot,
        PanelButton::Drag,
    ];

    assert_eq!(logical_panel_width(false), 240);
    assert_eq!(panel_column_count(false), 5);
    for (column, button) in expected.into_iter().enumerate() {
        let point = Point {
            x: column as i32 * BUTTON_WIDTH + BUTTON_WIDTH / 2,
            y: PANEL_HEIGHT / 2,
        };
        assert_eq!(
            panel_button_at(PANEL_WIDTH_WITHOUT_RECORDING, PANEL_HEIGHT, point, false),
            Some(button)
        );
        assert_eq!(
            panel_button_columns(button, false),
            Some((column as i32, column as i32 + 1))
        );
    }
    assert_eq!(panel_button_columns(PanelButton::Record, false), None);
    assert_eq!(panel_button_for_column(5, false), None);
}

#[test]
fn geometry_rejects_points_outside_the_panel() {
    let outside = [
        Point { x: -1, y: 0 },
        Point { x: PANEL_WIDTH_WITHOUT_RECORDING, y: 0 },
        Point { x: 0, y: -1 },
        Point { x: 0, y: PANEL_HEIGHT },
    ];

    for point in outside {
        assert_eq!(
            panel_button_at(PANEL_WIDTH_WITHOUT_RECORDING, PANEL_HEIGHT, point, false),
            None
        );
    }
}

#[test]
fn dpi_scaling_preserves_enabled_and_disabled_logical_widths() {
    assert_eq!(scaled_for_dpi(logical_panel_width(true), 144), 432);
    assert_eq!(scaled_for_dpi(logical_panel_width(false), 144), 360);
    assert_eq!(scaled_for_dpi(PANEL_HEIGHT, 144), 72);
}

#[test]
fn maps_the_inset_hole_when_client_matches_the_window() {
    assert_eq!(
        scaled_hole_rect((100, 50, 400, 300, 1920, 1080, 16), 1920, 1080),
        Some((116, 66, 484, 334))
    );
}

#[test]
fn scales_the_hole_to_the_physical_client_area() {
    assert_eq!(
        scaled_hole_rect((100, 50, 400, 300, 1920, 1080, 16), 3840, 2160),
        Some((232, 132, 968, 668))
    );
}

#[test]
fn rounds_fractional_scaling_to_the_nearest_pixel() {
    assert_eq!(
        scaled_hole_rect((100, 100, 400, 400, 1000, 1000, 0), 1250, 1250),
        Some((125, 125, 625, 625))
    );
}

#[test]
fn reports_no_hole_when_the_inset_swallows_the_selection() {
    assert_eq!(scaled_hole_rect((0, 0, 32, 300, 1920, 1080, 16), 1920, 1080), None);
    assert_eq!(scaled_hole_rect((0, 0, 400, 20, 1920, 1080, 16), 1920, 1080), None);
}

#[test]
fn lays_buttons_out_with_even_padding_and_gaps() {
    let widths = [40, 80, 40];

    assert_eq!(panel_width(&widths), 6 + 40 + 4 + 80 + 4 + 40 + 6);
    assert_eq!(panel_height(), 46);

    let first = button_rect(&widths, 0, 96);
    let middle = button_rect(&widths, 1, 96);
    let last = button_rect(&widths, 2, 96);

    assert_eq!(first.left, PANEL_PADDING);
    assert_eq!(middle.left, first.right + PANEL_BUTTON_GAP);
    assert_eq!(last.right, panel_width(&widths) - PANEL_PADDING);
}

#[test]
fn scales_the_layout_with_dpi() {
    let widths = [40, 80];
    let scaled = button_rect(&widths, 1, 192);

    assert_eq!(scaled.left, (PANEL_PADDING + 40 + PANEL_BUTTON_GAP) * 2);
    assert_eq!(scaled.bottom, (PANEL_PADDING + PANEL_BUTTON_HEIGHT) * 2);
}

#[test]
fn hit_tests_only_inside_button_bounds() {
    let widths = [40, 80];
    let inside = Point { x: PANEL_PADDING + 1, y: PANEL_PADDING + 1 };
    let gap = Point { x: PANEL_PADDING + 41, y: PANEL_PADDING + 1 };
    let padding = Point { x: 1, y: 1 };

    assert_eq!(button_at(&widths, inside, 96), Some(0));
    assert_eq!(button_at(&widths, gap, 96), None);
    assert_eq!(button_at(&widths, padding, 96), None);
}

#[test]
fn resolves_button_fills_from_interaction_state() {
    assert_eq!(button_fill(NEUTRAL_BUTTON, button_state(false, false)), NEUTRAL_BUTTON[0]);
    assert_eq!(button_fill(NEUTRAL_BUTTON, button_state(true, false)), NEUTRAL_BUTTON[1]);
    assert_eq!(button_fill(NEUTRAL_BUTTON, button_state(true, true)), NEUTRAL_BUTTON[2]);
}

#[test]
fn places_the_panel_on_the_display_that_holds_its_centre() {
    let logical = logical_panel_rect(100, 50, true);
    assert_eq!(logical, Rect { left: 100, top: 50, right: 388, bottom: 98 });
    let center = panel_center(100, 50, true);
    assert_eq!(center, Point { x: 244, y: 74 });
    let primary = MonitorProbe {
        is_primary: true,
        logical_bounds: Some(Rect { left: -2000, top: 0, right: -80, bottom: 1080 }),
        converted: Some(Rect { left: 1, top: 1, right: 2, bottom: 2 }),
    };
    let holding = MonitorProbe {
        is_primary: false,
        logical_bounds: Some(Rect { left: 0, top: 0, right: 1280, bottom: 720 }),
        converted: Some(Rect { left: 150, top: 75, right: 582, bottom: 147 }),
    };
    assert_eq!(
        choose_panel_rect(logical, center, &vec![primary, holding]),
        Rect { left: 150, top: 75, right: 582, bottom: 147 }
    );
    assert_eq!(choose_panel_rect(logical, center, &vec![primary]), Rect { left: 1, top: 1, right: 2, bottom: 2 });
    assert_eq!(choose_panel_rect(logical, center, &vec![]), logical);
    let unconverted = MonitorProbe { converted: None, ..holding };
    assert_eq!(choose_panel_rect(logical, center, &vec![unconverted]), logical);
}

#[test]
fn scales_lengths_by_dpi_and_wraps_like_a_cast() {
    assert_eq!(scale_for_dpi(46, 192), 92);
    assert_eq!(scale_for_dpi(10, 48), 10);
    assert_eq!(scale_for_dpi(-7, 144), -10);
    assert_eq!(scale_for_dpi(i32::MAX, 192), -2);
}
