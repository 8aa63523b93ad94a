use poratake_daemon_win::recording_audio::{
    channel_speaker, frames_to_hns, hns_to_frames_ceil, hns_to_frames_floor, microphone_selectors,
    resampled_frame_count, AudioClockState, AudioKind, AudioSegment, MicrophoneSelector,
};

#[test]
fn microphone_selection_prefers_endpoint_id_before_friendly_name() {
    assert_eq!(
        microphone_selectors(Some("endpoint-id"), Some("Microphone")),
        [
            Some(MicrophoneSelector::Id("endpoint-id")),
            Some(MicrophoneSelector::Name("Microphone")),
        ]
    );
}

#[test]
fn microphone_selection_ignores_empty_values() {
    assert_eq!(microphone_selectors(Some(" "), Some("")), [None, None]);
}

#[test]
fn microphone_selection_keeps_values_untrimmed() {
    assert_eq!(
        microphone_selectors(None, Some(" Mic ")),
        [None, Some(MicrophoneSelector::Name(" Mic "))]
    );
}

#[test]
fn converts_between_frames_and_media_time() {
    assert_eq!(frames_to_hns(48_000, 48_000), 10_000_000);
    assert_eq!(frames_to_hns(1, 0), 10_000_000);
    assert_eq!(frames_to_hns(1, 3), 3_333_333);
    assert_eq!(hns_to_frames_floor(3_333_333, 3), 0);
    assert_eq!(hns_to_frames_ceil(3_333_333, 3), 1);
    assert_eq!(hns_to_frames_floor(-5, 48_000), 0);
    assert_eq!(hns_to_frames_ceil(0, 48_000), 0);
    assert_eq!(hns_to_frames_floor(i64::MAX, 48_000), u32::MAX);
}

#[test]
fn resamples_frame_counts_to_the_aac_rate() {
    assert_eq!(resampled_frame_count(44_100, 44_100), 48_000);
    assert_eq!(resampled_frame_count(441, 44_100), 480);
    assert_eq!(resampled_frame_count(1, 96_000), 1);
    assert_eq!(resampled_frame_count(u32::MAX, 1), u32::MAX);
}

#[test]
fn finds_the_speaker_of_each_channel() {
    // Front left, front right, low frequency.
    let mask = 0b1011;
    assert_eq!(channel_speaker(mask, 0), Some(0));
    assert_eq!(channel_speaker(mask, 1), Some(1));
    assert_eq!(channel_speaker(mask, 2), Some(3));
    assert_eq!(channel_speaker(mask, 3), None);
}

#[test]
fn labels_audio_kinds() {
    assert_eq!(AudioKind::System.label(), "system audio");
    assert_eq!(AudioKind::Microphone.label(), "microphone");
}

#[test]
fn audio_before_the_first_video_frame_is_dropped() {
    let clock = AudioClockState::new();
    assert!(clock.visible_segments(0, 48_000, 48_000).is_empty());
    let mut synced = AudioClockState::new();
    synced.sync(20_000_000);
    synced.sync(0);
    assert!(synced.visible_segments(0, 48_000, 48_000).is_empty());
}

#[test]
fn paused_audio_is_cut_out_of_the_timeline() {
    let mut clock = AudioClockState::new();
    clock.sync(0);
    clock.pause(10_000_000);
    clock.resume(20_000_000);
    assert_eq!(
        clock.visible_segments(5_000_000, 48_000, 48_000),
        vec![AudioSegment { first_frame: 0, frame_count: 24_000, timestamp: 5_000_000 }]
    );
    assert_eq!(
        clock.visible_segments(18_000_000, 48_000, 48_000),
        vec![AudioSegment { first_frame: 9_600, frame_count: 38_400, timestamp: 10_000_000 }]
    );
    assert_eq!(clock.map_source(25_000_000, 0), 15_000_000);
}

#[test]
fn an_open_pause_hides_everything_after_it() {
    let mut clock = AudioClockState::new();
    clock.sync(0);
    clock.pause(10_000_000);
    assert_eq!(
        clock.visible_segments(5_000_000, 48_000, 48_000),
        vec![AudioSegment { first_frame: 0, frame_count: 24_000, timestamp: 5_000_000 }]
    );
    assert!(clock.visible_segments(12_000_000, 48_000, 48_000).is_empty());
}

#[test]
fn kept_parts_of_a_packet_come_in_frame_order() {
    let mut clock = AudioClockState::new();
    clock.sync(0);
    clock.pause(12_000_000);
    clock.resume(13_000_000);
    clock.pause(15_000_000);
    clock.resume(14_000_000);
    clock.pause(16_000_000);
    clock.resume(17_000_000);
    let segments = clock.visible_segments(10_000_000, 96_000, 48_000);
    assert_eq!(segments.len(), 4);
    for pair in segments.windows(2) {
        assert!(pair[0].first_frame + pair[0].frame_count <= pair[1].first_frame);
    }
    assert_eq!(segments[0], AudioSegment { first_frame: 0, frame_count: 9_600, timestamp: 10_000_000 });
}
