use poratake_daemon_win::audio_writer::{
    packet_byte_length, AudioWrite, AudioWriteCursor, BufferedPacket, CapturedPacket,
    PendingAudio,
};
use poratake_daemon_win::recording_audio::AudioClockState;

fn packet(frames: u32, qpc_position: i64) -> CapturedPacket {
    CapturedPacket {
        frames,
        qpc_position,
        timestamp_error: false,
        silent: false,
        discontinuity: false,
    }
}

fn synced_clock() -> AudioClockState {
    let mut clock = AudioClockState::new();
    clock.sync(0);
    clock
}

fn samples(first_frame: u32, frame_count: u32, timestamp: i64, silent: bool) -> AudioWrite {
    AudioWrite::Samples { first_frame, frame_count, output_frames: frame_count, timestamp, silent }
}

#[test]
fn writes_a_packet_at_its_place_on_the_timeline() {
    let clock = synced_clock();
    let mut cursor = AudioWriteCursor::new();
    let writes = cursor.plan_packet(&clock, packet(480, 0), 48_000, false);
    assert_eq!(writes, vec![samples(0, 480, 0, false)]);
    assert_eq!(cursor.next_time, 100_000);
    assert_eq!(cursor.last_source_end, Some(100_000));
}

#[test]
fn fills_a_gap_before_a_late_packet_with_silence() {
    let clock = synced_clock();
    let mut cursor = AudioWriteCursor::new();
    cursor.plan_packet(&clock, packet(480, 0), 48_000, false);
    let writes = cursor.plan_packet(&clock, packet(480, 200_000), 48_000, false);
    assert_eq!(
        writes,
        vec![
            AudioWrite::Silence { frames: 480, timestamp: 100_000 },
            samples(0, 480, 200_000, false),
        ]
    );
    assert_eq!(cursor.next_time, 300_000);
}

#[test]
fn trims_the_part_of_a_packet_that_overlaps_written_audio() {
    let clock = synced_clock();
    let mut cursor = AudioWriteCursor::new();
    cursor.plan_packet(&clock, packet(480, 0), 48_000, false);
    let writes = cursor.plan_packet(&clock, packet(480, 50_000), 48_000, false);
    assert_eq!(
        writes,
        vec![AudioWrite::Samples {
            first_frame: 240,
            frame_count: 240,
            output_frames: 240,
            timestamp: 100_000,
            silent: false,
        }]
    );
    assert_eq!(cursor.next_time, 150_000);
}

#[test]
fn an_untimed_packet_follows_the_one_before() {
    let clock = synced_clock();
    let mut cursor = AudioWriteCursor::new();
    cursor.plan_packet(&clock, packet(480, 0), 48_000, false);
    let untimed = CapturedPacket { timestamp_error: true, ..packet(480, 9_000_000) };
    let writes = cursor.plan_packet(&clock, untimed, 48_000, true);
    assert_eq!(writes, vec![samples(0, 480, 100_000, true)]);
    assert_eq!(cursor.last_source_end, Some(200_000));
}

#[test]
fn an_empty_packet_writes_nothing() {
    let clock = synced_clock();
    let mut cursor = AudioWriteCursor::new();
    assert!(cursor.plan_packet(&clock, packet(0, 0), 48_000, false).is_empty());
    assert_eq!(cursor, AudioWriteCursor::new());
}

#[test]
fn audio_before_the_first_video_frame_is_not_written() {
    let clock = AudioClockState::new();
    assert!(!clock.has_origin());
    let mut cursor = AudioWriteCursor::new();
    assert!(cursor.plan_packet(&clock, packet(480, 0), 48_000, false).is_empty());
    assert_eq!(cursor.next_time, 0);
}

#[test]
fn silence_is_written_in_chunks_that_follow_each_other() {
    let mut cursor = AudioWriteCursor::new();
    let mut writes = Vec::new();
    cursor.fill_until(10_000_000, &mut writes);
    assert_eq!(writes.len(), 12);
    assert_eq!(writes[0], AudioWrite::Silence { frames: 4096, timestamp: 0 });
    assert_eq!(writes[1], AudioWrite::Silence { frames: 4096, timestamp: 853_333 });
    assert_eq!(writes[11], AudioWrite::Silence { frames: 2944, timestamp: 9_386_663 });
    assert_eq!(cursor.next_time, 9_999_996);
}

#[test]
fn pending_audio_drops_the_oldest_packets_beyond_the_limit() {
    let mut pending = PendingAudio::new();
    for qpc in 0..3 {
        pending.push(BufferedPacket { packet: packet(1, qpc), data: vec![0u8; 8 * 1024 * 1024] });
    }
    let kept = pending.take_all();
    assert_eq!(kept.len(), 2);
    assert_eq!(kept[0].packet.qpc_position, 1);
    assert_eq!(kept[1].packet.qpc_position, 2);
    assert!(pending.take_all().is_empty());
}

#[test]
fn packet_lengths_are_frames_times_block_size() {
    assert_eq!(packet_byte_length(480, 8).ok(), Some(3840));
    assert_eq!(packet_byte_length(0, 8).ok(), Some(0));
}
