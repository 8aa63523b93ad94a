use poratake_daemon_win::recorder_types::CaptureRect;
use poratake_daemon_win::recording_camera::MonotonicTime;
use poratake_daemon_win::recording_input::{
    event_elapsed, is_modifier_key, key_name, keyboard_event, signal_and_take_hook_resources,
    wheel_units, InputTimeline, ModifierState, TrackerBounds, TrackerSource,
};

const SECOND: u128 = 1_000_000_000;

fn at_seconds(seconds: u128) -> MonotonicTime {
    MonotonicTime { nanos: 7 * SECOND + seconds * SECOND }
}

#[test]
fn modifier_state_serializes_control_alt_k_chord_in_contract_order() {
    let mut modifiers = ModifierState::empty();
    modifiers.update(0xA2, true);
    modifiers.update(0xA5, true);

    assert_eq!(modifiers.serialized(), vec!["control", "alt"]);
    assert_eq!(key_name(0x4B), "K");
}

#[test]
fn modifier_state_tracks_left_and_right_release_independently() {
    let mut modifiers = ModifierState::empty();
    modifiers.update(0xA2, true);
    modifiers.update(0xA3, true);
    modifiers.update(0xA2, false);
    assert_eq!(modifiers.serialized(), vec!["control"]);

    modifiers.update(0xA3, false);
    assert!(modifiers.serialized().is_empty());
}

#[test]
fn key_mapping_and_wheel_delta_match_windows_contract() {
    assert_eq!(key_name(0x70), "F1");
    assert_eq!(key_name(0x6B), "KeypadPlus");
    assert_eq!(f64::from(wheel_units((120_u32) << 16)) / 120.0, 1.0);
    assert_eq!(f64::from(wheel_units(((-120_i16) as u16 as u32) << 16)) / 120.0, -1.0);
}

#[test]
fn names_every_kind_of_key() {
    assert_eq!(key_name(0x30), "0");
    assert_eq!(key_name(0x87), "F24");
    assert_eq!(key_name(0x65), "Keypad5");
    assert_eq!(key_name(0x0D), "Return");
    assert_eq!(key_name(0xDC), "\\");
    assert_eq!(key_name(0xFF), "Key255");
}

#[test]
fn ignores_keys_other_than_modifiers_in_the_state() {
    let mut modifiers = ModifierState::empty();
    modifiers.update(0x4B, true);
    assert!(modifiers.serialized().is_empty());
    modifiers.update(0x5B, true);
    modifiers.update(0x10, true);
    assert_eq!(modifiers.serialized(), vec!["meta", "shift"]);
    assert!(modifiers.any_down(&[0x10]));
    assert!(!modifiers.any_down(&[0x11, 0x12]));
    assert!(is_modifier_key(0xA4));
    assert!(!is_modifier_key(0x4B));
}

#[test]
fn timestamp_excludes_only_pause_overlap_before_event() {
    let origin = at_seconds(0);
    let pauses = vec![(at_seconds(2), at_seconds(5))];

    assert_eq!(event_elapsed(at_seconds(8), origin, &pauses), 5 * SECOND);
    assert_eq!(event_elapsed(origin, origin, &pauses), 0);
    assert_eq!(event_elapsed(at_seconds(3), origin, &pauses), 2 * SECOND);
}

#[test]
fn timeline_records_pauses_between_sync_and_events() {
    let mut timeline = InputTimeline::new();
    assert!(timeline.event_time(at_seconds(1)).is_err());
    timeline.sync(at_seconds(0));
    timeline.sync(at_seconds(4));
    timeline.pause(at_seconds(2));
    timeline.pause(at_seconds(3));
    timeline.resume(at_seconds(5));
    timeline.resume(at_seconds(6));
    assert_eq!(timeline.pauses, vec![(at_seconds(2), at_seconds(5))]);
    assert_eq!(timeline.event_time(at_seconds(8)).unwrap(), 5 * SECOND);
}

#[test]
fn key_events_follow_pause_and_keyboard_setting() {
    let mut modifiers = ModifierState::empty();
    assert!(keyboard_event(&mut modifiers, 0xA2, true, false, true).is_none());
    let record = keyboard_event(&mut modifiers, 0x4B, true, false, true).expect("recorded");
    assert_eq!(record.key, "K");
    assert_eq!(record.key_code, 0x4B);
    assert_eq!(record.modifiers, vec!["control"]);
    assert!(keyboard_event(&mut modifiers, 0x4B, false, true, true).is_none());
    assert!(keyboard_event(&mut modifiers, 0x4B, false, false, false).is_none());
}

#[test]
fn failed_stop_signal_retains_resources_for_retry() {
    let mut stop_event = Some(1_usize);
    let mut thread = Some(42);

    let first = signal_and_take_hook_resources(&mut stop_event, &mut thread, |_| {
        Err("access denied".to_string())
    });
    let error = first.err().expect("signal failure");
    assert_eq!(error.message, "Failed to signal input hook shutdown: access denied");
    assert!(stop_event.is_some());
    assert_eq!(thread, Some(42));

    let second = signal_and_take_hook_resources(&mut stop_event, &mut thread, |_| Ok(()));
    let Ok((event, thread_token)) = second else {
        panic!("retained hook resources should remain available for retry");
    };
    assert_eq!(event, 1);
    assert_eq!(thread_token, 42);
    assert!(stop_event.is_none());
    assert!(thread.is_none());

    let third = signal_and_take_hook_resources(&mut stop_event, &mut thread, |_| Ok(()));
    assert_eq!(third.err().expect("no event").message, "Input hook stop event is unavailable");
}

#[test]
fn tracker_bounds_keep_the_source_and_frame() {
    let frame = CaptureRect { x: 0, y: 0, width: 800, height: 600 };
    let bounds = TrackerBounds::new(TrackerSource::Window(42), frame);
    assert_eq!(bounds.source, TrackerSource::Window(42));
    assert_eq!(bounds.frame.width, 800);
}
