use poratake_daemon_win::geometry::{Point, Rect};
use poratake_daemon_win::panel::{ACTIVE_BUTTON, NEUTRAL_BUTTON, PRIMARY_BUTTON};
use poratake_daemon_win::scroll_capture::{
    find_overlap, frame_hash, panel_button_label, panel_button_palette, panel_rect_in_monitor,
    ring_covers_rect, stitch_frames, windows_to_hide, with_hidden_capture_windows, AutoScroll,
    CaptureBounds, CaptureOutcome, CapturedFrame, ClosureSurface, FrameSequence, ScrollSpeed,
};
use std::cell::RefCell;

fn frame(start_row: usize, width: usize, height: usize) -> CapturedFrame {
    let mut pixels = Vec::with_capacity(width * height * 4);
    for y in 0..height {
        for x in 0..width {
            let seed = ((start_row + y) as u32).wrapping_mul(0x45d9f3b)
                ^ (x as u32).wrapping_mul(0x119de1f3);
            pixels.extend_from_slice(&[
                seed as u8,
                seed.rotate_left(9) as u8,
                seed.rotate_left(17) as u8,
                255,
            ]);
        }
    }
    CapturedFrame {
        width,
        height,
        pixels,
        overlap: 0,
    }
}

#[test]
fn finds_overlap_between_translated_frames() {
    let width = 96;
    let height = 160;
    let overlap = 52;
    let previous = frame(0, width, height);
    let current = frame(height - overlap, width, height);

    assert_eq!(
        find_overlap(&previous, &current.pixels, width, height, 48),
        Some(overlap)
    );
}

#[test]
fn recognizes_repeated_frame_content() {
    let width = 96;
    let height = 160;
    let previous = frame(0, width, height);
    let repeated = frame(0, width, height);

    assert_eq!(
        frame_hash(&previous.pixels, width, height),
        frame_hash(&repeated.pixels, width, height)
    );
    assert_eq!(
        find_overlap(&previous, &repeated.pixels, width, height, 48),
        Some(height)
    );
}

#[test]
fn rejects_frames_without_confident_overlap() {
    let width = 96;
    let height = 160;
    let previous = frame(0, width, height);
    let unrelated = frame(10_000, width, height);

    assert_eq!(
        find_overlap(&previous, &unrelated.pixels, width, height, 48),
        None
    );
}

#[test]
fn refuses_overlap_between_frames_of_different_sizes() {
    let previous = frame(0, 96, 160);
    let current = frame(0, 96, 120);
    assert_eq!(find_overlap(&previous, &current.pixels, 96, 120, 48), None);
}

#[test]
fn hashes_differ_for_different_content() {
    let first = frame(0, 96, 160);
    let second = frame(500, 96, 160);
    assert_ne!(frame_hash(&first.pixels, 96, 160), frame_hash(&second.pixels, 96, 160));
    assert_eq!(frame_hash(&[], 0, 0), 0xcbf29ce484222325);
}

#[test]
fn auto_button_switches_to_a_stop_action_while_scrolling() {
    assert_eq!(panel_button_label(0, false), "Auto");
    assert_eq!(panel_button_label(0, true), "Stop");
    assert_eq!(panel_button_palette(0, false)[0], NEUTRAL_BUTTON[0]);
    assert_eq!(panel_button_palette(0, true)[0], ACTIVE_BUTTON[0]);
    assert_eq!(panel_button_palette(1, false)[0], PRIMARY_BUTTON[0]);
}

#[test]
fn boundary_ring_leaves_the_capture_area_untouched() {
    let capture = Rect { left: 100, top: 200, right: 500, bottom: 600 };
    let ring = Rect {
        left: capture.left - 2,
        top: capture.top - 2,
        right: capture.right + 2,
        bottom: capture.bottom + 2,
    };

    assert!(!ring_covers_rect(&ring, 2, &capture));
    assert!(ring_covers_rect(&ring, 3, &capture));
}

#[test]
fn hides_only_windows_the_capture_would_include() {
    assert_eq!(windows_to_hide([true, true], [false, false]), [false, false]);
    assert_eq!(windows_to_hide([true, true], [true, false]), [true, false]);
    assert_eq!(windows_to_hide([false, true], [true, true]), [false, true]);
}

#[test]
fn capture_window_visibility_is_restored_after_success() {
    let events = RefCell::new(Vec::new());

    let result = {
        let mut surface = ClosureSurface::new(
            |index, visible| events.borrow_mut().push((index, visible)),
            || {
                events.borrow_mut().push((usize::MAX, true));
                Ok::<_, ()>(42)
            },
        );
        with_hidden_capture_windows([true, false], &mut surface)
    };

    assert_eq!(result, Ok(42));
    assert_eq!(events.into_inner(), vec![(0, false), (usize::MAX, true), (0, true)]);
}

#[test]
fn capture_window_visibility_is_restored_after_failure() {
    let events = RefCell::new(Vec::new());

    let result = {
        let mut surface = ClosureSurface::new(
            |index, visible| events.borrow_mut().push((index, visible)),
            || {
                events.borrow_mut().push((usize::MAX, false));
                Err::<(), _>("capture failed")
            },
        );
        with_hidden_capture_windows([true, true], &mut surface)
    };

    assert_eq!(result, Err("capture failed"));
    assert_eq!(
        events.into_inner(),
        vec![(0, false), (1, false), (usize::MAX, false), (0, true), (1, true)]
    );
}

#[test]
fn parses_scroll_speeds() {
    assert_eq!(ScrollSpeed::parse(Some("slow")), ScrollSpeed::Slow);
    assert_eq!(ScrollSpeed::parse(Some("fast")), ScrollSpeed::Fast);
    assert_eq!(ScrollSpeed::parse(Some("warp")), ScrollSpeed::Medium);
    assert_eq!(ScrollSpeed::parse(None), ScrollSpeed::Medium);
    assert!(ScrollSpeed::Slow.interval() > ScrollSpeed::Medium.interval());
    assert!(ScrollSpeed::Medium.interval() > ScrollSpeed::Fast.interval());
}

#[test]
fn stitches_frames_by_their_new_rows() {
    let mut second = frame(100, 96, 160);
    second.overlap = 60;
    let first = frame(0, 96, 160);
    assert_eq!(stitch_frames(&[first, second]), Ok((96, 260)));
    assert_eq!(stitch_frames(&[]), Err("No frames were captured".to_string()));
    assert_eq!(
        stitch_frames(&[frame(0, 96, 160), frame(0, 80, 160)]),
        Err("Captured frame dimensions do not match".to_string())
    );
}

#[test]
fn frame_sequence_adds_repeats_and_ends() {
    let mut sequence = FrameSequence::new(108);
    let first = frame(0, 96, 160);
    assert_eq!(sequence.add_frame(96, 160, first.pixels.clone()), CaptureOutcome::Added);
    assert_eq!(sequence.estimated_height, 160);
    let next = frame(108, 96, 160);
    assert_eq!(sequence.add_frame(96, 160, next.pixels.clone()), CaptureOutcome::Added);
    assert_eq!(sequence.frames[1].overlap, 52);
    assert_eq!(sequence.estimated_height, 268);
    assert_eq!(sequence.add_frame(96, 160, next.pixels.clone()), CaptureOutcome::Repeated);
    assert_eq!(sequence.add_frame(96, 160, next.pixels.clone()), CaptureOutcome::Repeated);
    assert_eq!(sequence.add_frame(96, 160, next.pixels.clone()), CaptureOutcome::Ended);
    let unrelated = frame(10_000, 96, 160);
    assert_eq!(sequence.add_frame(96, 160, unrelated.pixels), CaptureOutcome::NoOverlap);
    assert_eq!(sequence.frames.len(), 2);
}

#[test]
fn places_the_panel_below_the_area_or_above_it() {
    let monitor = Rect { left: 0, top: 0, right: 1920, bottom: 1080 };
    let bounds = CaptureBounds { x: 100, y: 100, width: 400, height: 300 };
    assert_eq!(
        panel_rect_in_monitor(bounds, monitor, 96),
        Rect { left: 176, top: 416, right: 424, bottom: 462 }
    );
    let low = CaptureBounds { x: 1800, y: 700, width: 100, height: 350 };
    assert_eq!(
        panel_rect_in_monitor(low, monitor, 96),
        Rect { left: 1672, top: 638, right: 1920, bottom: 684 }
    );
    assert!(bounds.contains(Point { x: 100, y: 399 }));
    assert!(!bounds.contains(Point { x: 500, y: 100 }));
}

#[test]
fn auto_scroll_captures_after_a_frame_of_steps() {
    let mut scroll = AutoScroll::new(2);
    scroll.is_auto_scrolling = true;
    scroll.step_taken();
    assert!(!scroll.capture_on_next_tick);
    scroll.step_taken();
    assert!(scroll.capture_on_next_tick);
    assert_eq!(scroll.current_scroll_step, 0);
    scroll.stop();
    assert!(!scroll.is_auto_scrolling && !scroll.capture_on_next_tick);
}

#[test]
fn found_overlaps_stay_between_the_strip_and_the_frame_height() {
    let width = 96;
    let height = 160;
    let previous = frame(0, width, height);
    for shift in [3, 40, 100, 150] {
        let current = frame(shift, width, height);
        for expected in [0, 10, 57, 160, 1_000] {
            if let Some(rows) = find_overlap(&previous, &current.pixels, width, height, expected) {
                assert!((40..=height).contains(&rows), "{shift} {expected} {rows}");
            }
        }
    }
}
