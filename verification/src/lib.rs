//! Verified core of the Windows capture daemon: geometry, timelines, parsers
//! and the decisions that the daemon's modules make between system calls.
pub mod geometry;
pub mod text;
pub mod time_format;
pub mod arith;
pub mod recorder_types;
pub mod screen_capture;
pub mod panel;
pub mod all_in_one;
pub mod area_selector;
pub mod camera_devices;
pub mod freeze_screen;
pub mod ocr;
pub mod print;
pub mod qrcode;
pub mod recording_audio;
pub mod paths;
pub mod recording_camera;
pub mod recording_input;
pub mod scroll_capture;
pub mod png;
pub mod protocol;
pub mod recording_overlay;
pub mod camera_preview;
pub mod overlay;
pub mod router;
pub mod selectors;
pub mod recorder_control;
pub mod desktop_wallpaper;
pub mod audio_writer;
