use poratake_daemon_win::geometry::{rect_height, rect_width, Rect};
use poratake_daemon_win::protocol::method_not_found;
use poratake_daemon_win::recording_overlay::{
    dim_rectangles, highlight_frame, highlight_metrics, intersection, overlay_area, overlay_error,
    parse_color, HighlightMetrics, OverlayWindowError, HIGHLIGHT_FALLBACK,
};

#[test]
fn reads_the_theme_accent_into_a_colorref() {
    assert_eq!(parse_color(Some("#8892ef")), 0x00EF_9288);
    assert_eq!(parse_color(Some("5F6CD9")), 0x00D9_6C5F);
}

#[test]
fn falls_back_when_the_accent_is_unusable() {
    assert_eq!(parse_color(None), HIGHLIGHT_FALLBACK);
    assert_eq!(parse_color(Some("#fff")), HIGHLIGHT_FALLBACK);
    assert_eq!(parse_color(Some("#zzzzzz")), HIGHLIGHT_FALLBACK);
}

#[test]
fn accent_parsing_follows_radix_parsing_rules() {
    assert_eq!(parse_color(Some("##+f0000")), 0x0000_000F);
    assert_eq!(parse_color(Some("ééé")), HIGHLIGHT_FALLBACK);
}

#[test]
fn frames_the_window_without_touching_it() {
    let bounds = Rect { left: 100, top: 200, right: 500, bottom: 600 };
    let frame = highlight_frame(bounds, 2);

    assert_eq!(frame.left, bounds.left - 2);
    assert_eq!(frame.top, bounds.top - 2);
    assert_eq!(frame.right, bounds.right + 2);
    assert_eq!(frame.bottom, bounds.bottom + 2);
}

#[test]
fn frame_grows_by_the_inset_on_every_side() {
    let bounds = Rect { left: 0, top: 0, right: 40, bottom: 30 };
    let frame = highlight_frame(bounds, 3);

    assert_eq!(rect_width(&frame), rect_width(&bounds) + 6);
    assert_eq!(rect_height(&frame), rect_height(&bounds) + 6);
}

#[test]
fn scales_the_highlight_ring_with_dpi() {
    assert_eq!(highlight_metrics(96), HighlightMetrics { inset: 2, thickness: 1, radius: 8 });
    assert_eq!(highlight_metrics(192), HighlightMetrics { inset: 4, thickness: 2, radius: 16 });
    assert_eq!(highlight_metrics(0), HighlightMetrics { inset: 2, thickness: 1, radius: 8 });
    assert_eq!(
        highlight_metrics(u32::MAX),
        HighlightMetrics { inset: 89_478_484, thickness: 44_739_242, radius: 357_913_941 }
    );
}

#[test]
fn dims_everything_around_the_recording() {
    let monitor = Rect { left: 0, top: 0, right: 1920, bottom: 1080 };
    let recording = Rect { left: 100, top: 200, right: 500, bottom: 600 };
    assert_eq!(
        dim_rectangles(monitor, recording),
        vec![
            Rect { left: 0, top: 0, right: 1920, bottom: 200 },
            Rect { left: 0, top: 600, right: 1920, bottom: 1080 },
            Rect { left: 0, top: 200, right: 100, bottom: 600 },
            Rect { left: 500, top: 200, right: 1920, bottom: 600 },
        ]
    );
    let elsewhere = Rect { left: 3000, top: 0, right: 3100, bottom: 100 };
    assert_eq!(dim_rectangles(monitor, elsewhere), vec![monitor]);
    let corner = Rect { left: 0, top: 0, right: 960, bottom: 1080 };
    assert_eq!(
        dim_rectangles(monitor, corner),
        vec![Rect { left: 960, top: 0, right: 1920, bottom: 1080 }]
    );
    assert_eq!(intersection(&monitor, &elsewhere), None);
}

#[test]
fn show_requires_a_positive_area() {
    assert_eq!(
        overlay_area(Some(1), Some(2), Some(3), Some(4)),
        Ok(Rect { left: 1, top: 2, right: 4, bottom: 6 })
    );
    assert_eq!(
        overlay_area(Some(i32::MAX - 1), Some(0), Some(10), Some(4)).unwrap().right,
        i32::MAX
    );
    let missing = overlay_area(Some(1), None, Some(3), Some(4)).unwrap_err();
    assert_eq!(missing.code, "INVALID_PARAMS");
    assert_eq!(missing.message, "show requires x, y, width, height");
    let empty = overlay_area(Some(1), Some(2), Some(0), Some(4)).unwrap_err();
    assert_eq!(empty.message, "show requires positive width and height");
}

#[test]
fn overlay_errors_name_the_failed_window() {
    let error = overlay_error(OverlayWindowError::ContentProtection, true);
    assert_eq!(error.code, "CONTENT_PROTECTION_ERROR");
    assert_eq!(error.message, "Failed to protect recording highlight window");
    assert_eq!(
        overlay_error(OverlayWindowError::Create, false).message,
        "Failed to create recording overlay window"
    );
    let unknown = method_not_found("fly");
    assert_eq!(unknown.code, "METHOD_NOT_FOUND");
    assert_eq!(unknown.message, "Unknown method: fly");
}

#[test]
fn the_ring_leaves_a_gap_around_the_window() {
    let bounds = Rect { left: 100, top: 200, right: 500, bottom: 600 };
    for dpi in [96, 144, 192] {
        let metrics = highlight_metrics(dpi);
        let frame = highlight_frame(bounds, metrics.inset);
        assert!(frame.left + metrics.thickness < bounds.left);
        assert!(frame.top + metrics.thickness < bounds.top);
        assert!(frame.right - metrics.thickness > bounds.right);
        assert!(frame.bottom - metrics.thickness > bounds.bottom);
    }
}
