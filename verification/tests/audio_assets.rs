use poratake_daemon_win::recorder_types::{RecorderError, StagedAsset};
use poratake_daemon_win::recording_audio::{
    check_audio_format, has_extensible_fields, match_microphone_name, settle_audio_tracks, AudioFormat, ExtensibleFields,
    SubFormat, WaveFormat,
};
use std::path::PathBuf;

fn asset(name: &str) -> StagedAsset {
    StagedAsset {
        temporary_path: PathBuf::from(format!("/tmp/.{name}.partial")),
        output_path: PathBuf::from(format!("/tmp/{name}")),
    }
}

#[test]
fn both_tracks_finishing_keeps_both_assets() {
    let settled = settle_audio_tracks(Some(Ok(asset("system.m4a"))), Some(Ok(asset("mic.m4a"))));
    assert!(settled.orphan.is_none());
    let Ok(paths) = settled.outcome else {
        panic!("both tracks finished");
    };
    assert_eq!(paths.system_audio.unwrap().output_path, PathBuf::from("/tmp/system.m4a"));
    assert_eq!(paths.microphone_audio.unwrap().output_path, PathBuf::from("/tmp/mic.m4a"));
}

#[test]
fn tracks_that_were_not_recorded_have_no_asset() {
    let settled = settle_audio_tracks(None, Some(Ok(asset("mic.m4a"))));
    let Ok(paths) = settled.outcome else {
        panic!("the microphone finished");
    };
    assert!(paths.system_audio.is_none());
    assert!(paths.microphone_audio.is_some());
}

#[test]
fn a_failed_track_hands_back_the_other_file_for_removal() {
    let settled = settle_audio_tracks(
        Some(Ok(asset("system.m4a"))),
        Some(Err(RecorderError::capture("microphone failed"))),
    );
    let Err(error) = settled.outcome else {
        panic!("the microphone failed");
    };
    assert_eq!(error.message, "microphone failed");
    assert_eq!(
        settled.orphan.map(|orphan| orphan.temporary_path),
        Some(PathBuf::from("/tmp/.system.m4a.partial"))
    );
}

#[test]
fn the_system_track_error_wins_when_both_fail() {
    let settled = settle_audio_tracks(
        Some(Err(RecorderError::capture("system failed"))),
        Some(Err(RecorderError::capture("microphone failed"))),
    );
    let Err(error) = settled.outcome else {
        panic!("both failed");
    };
    assert_eq!(error.message, "system failed");
    assert!(settled.orphan.is_none());
}


fn float_stereo() -> WaveFormat {
    WaveFormat {
        format_tag: 0xfffe,
        channels: 2,
        samples_per_sec: 48_000,
        block_align: 8,
        bits_per_sample: 32,
        extra_size: 22,
        extensible: Some(ExtensibleFields {
            sub_format: SubFormat::Float,
            channel_mask: 3,
            valid_bits_per_sample: 32,
        }),
    }
}

#[test]
fn accepts_an_extensible_float_mix_format() {
    assert!(has_extensible_fields(0xfffe, 22));
    assert!(!has_extensible_fields(0xfffe, 21));
    assert!(!has_extensible_fields(1, 22));
    assert_eq!(
        check_audio_format(float_stereo()).ok(),
        Some(AudioFormat {
            sample_rate: 48_000,
            channels: 2,
            bits_per_sample: 32,
            valid_bits_per_sample: 32,
            block_align: 8,
            channel_mask: Some(3),
            floating_point: true,
        })
    );
}

#[test]
fn accepts_plain_pcm_and_keeps_its_precision() {
    let wave = WaveFormat {
        format_tag: 1,
        channels: 1,
        samples_per_sec: 44_100,
        block_align: 3,
        bits_per_sample: 24,
        extra_size: 0,
        extensible: None,
    };
    let format = check_audio_format(wave).ok().unwrap();
    assert!(!format.floating_point);
    assert_eq!(format.valid_bits_per_sample, 24);
    assert_eq!(format.channel_mask, None);
}

#[test]
fn rejects_malformed_device_formats() {
    let message = |wave: WaveFormat| check_audio_format(wave).err().map(|error| error.message);
    assert_eq!(
        message(WaveFormat { channels: 0, ..float_stereo() }),
        Some("Audio device reported an invalid capture format".to_string())
    );
    let mut other = float_stereo();
    other.extensible = Some(ExtensibleFields { sub_format: SubFormat::Other, channel_mask: 3, valid_bits_per_sample: 32 });
    assert_eq!(
        message(other),
        Some("Audio device uses an unsupported capture sample format".to_string())
    );
    assert_eq!(
        message(WaveFormat { format_tag: 2, extensible: None, extra_size: 0, ..float_stereo() }),
        Some("Audio device uses an unsupported capture sample format".to_string())
    );
    assert_eq!(
        message(WaveFormat { bits_per_sample: 16, block_align: 4, ..float_stereo() }),
        Some("Audio device uses an unsupported floating-point format".to_string())
    );
    assert_eq!(
        message(WaveFormat { format_tag: 1, bits_per_sample: 12, extensible: None, extra_size: 0, ..float_stereo() }),
        Some("Audio device uses an unsupported PCM sample width".to_string())
    );
    let mut wide = float_stereo();
    wide.extensible = Some(ExtensibleFields { sub_format: SubFormat::Pcm, channel_mask: 3, valid_bits_per_sample: 33 });
    assert_eq!(
        message(wide),
        Some("Audio device reported invalid sample precision".to_string())
    );
    assert_eq!(
        message(WaveFormat { block_align: 7, ..float_stereo() }),
        Some("Audio device reported invalid channel alignment".to_string())
    );
    assert_eq!(
        message(WaveFormat { block_align: 6, ..float_stereo() }),
        Some("Audio device reported invalid sample alignment".to_string())
    );
}

#[test]
fn finds_a_microphone_by_name_exactly_before_partially() {
    let names = vec![
        Some("Headset Microphone (Realtek)".to_string()),
        None,
        Some("USB Mic".to_string()),
        Some("usb mic".to_string()),
    ];
    assert_eq!(match_microphone_name(&names, "usb MIC"), Some(2));
    assert_eq!(match_microphone_name(&names, "headset"), Some(0));
    assert_eq!(match_microphone_name(&names, "USB Mic Pro"), Some(2));
    assert_eq!(match_microphone_name(&names, "webcam"), None);
}
