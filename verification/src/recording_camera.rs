//! The camera track of a recording: the choice of capture format, and the
//! timeline that ties camera frames to the first screen frame and removes
//! paused time.
use vstd::prelude::*;
use std::collections::VecDeque;
use std::path::PathBuf;
use std::time::SystemTime;
use crate::arith::{clamp, clamp_i64, saturating_add_i64, saturating_sub_i64};
use crate::recorder_types::RecorderError;
use crate::text::same_text;

verus! {

#[verifier::external_type_specification]
#[verifier::external_body]
pub struct ExSystemTime(SystemTime);

/// Camera frames preferably have this size.
pub const TARGET_WIDTH: u32 = 1280;
pub const TARGET_HEIGHT: u32 = 720;
/// Frames that arrive before the screen's first frame wait in a queue of this length.
pub const MAX_PENDING_FRAMES: usize = 8;

/// What the camera track is asked to record.
#[derive(Debug)]
pub struct CameraRecordingConfig {
    pub project_dir: PathBuf,
    pub device_id: Option<String>,
    pub device_name: Option<String>,
    pub frame_rate: u32,
}

/// A point of the monotonic clock, in nanoseconds from a fixed moment of the
/// process.
#[derive(Clone, Copy, Debug, PartialEq, Eq, Structural)]
pub struct MonotonicTime {
    pub nanos: u128,
}

/// The screen's first frame, on the monotonic clock and on the wall clock.
#[derive(Clone, Copy, Debug)]
pub struct CameraSyncClock {
    pub monotonic_time: MonotonicTime,
    pub wall_time: SystemTime,
}

/// When a camera frame was captured (its source time, 100 ns units) and when
/// it reached the process.
#[derive(Clone, Copy, Debug, PartialEq, Eq, Structural)]
pub struct CameraCapturePoint {
    pub source_time: i64,
    pub arrived_at: MonotonicTime,
}

/// A span of `nanoseconds` in 100 ns units, at most `i64::MAX`.
pub open spec fn spec_duration_hns(nanoseconds: u128) -> int {
    if nanoseconds / 100 > i64::MAX {
        i64::MAX as int
    } else {
        (nanoseconds / 100) as int
    }
}

pub fn duration_hns(nanoseconds: u128) -> (hns: i64)
    ensures
        hns == spec_duration_hns(nanoseconds),
{
    let units: u128 = nanoseconds / 100;
    if units > i64::MAX as u128 {
        i64::MAX
    } else {
        units as i64
    }
}

/// The camera's source time at the moment `screen_time`: the source time of
/// the last captured frame moved by the time between its arrival and then.
pub open spec fn spec_bridge_source_time(capture: CameraCapturePoint, screen_time: MonotonicTime) -> int {
    if screen_time.nanos >= capture.arrived_at.nanos {
        clamp_i64(
            capture.source_time + spec_duration_hns(
                (screen_time.nanos - capture.arrived_at.nanos) as u128,
            ),
        )
    } else {
        clamp_i64(
            capture.source_time - spec_duration_hns(
                (capture.arrived_at.nanos - screen_time.nanos) as u128,
            ),
        )
    }
}

pub fn bridge_source_time(capture: CameraCapturePoint, screen_time: MonotonicTime) -> (source:
    i64)
    ensures
        source == spec_bridge_source_time(capture, screen_time),
{
    if screen_time.nanos >= capture.arrived_at.nanos {
        return saturating_add_i64(
            capture.source_time,
            duration_hns(screen_time.nanos - capture.arrived_at.nanos),
        );
    }
    saturating_sub_i64(capture.source_time, duration_hns(capture.arrived_at.nanos - screen_time.nanos))
}

/// A frame's place on the camera timeline: its distance from the origin less
/// the paused time, never negative.
pub open spec fn spec_adjusted_camera_timestamp(source_time: i64, origin: i64, total_pause: i64) -> int {
    let shifted = clamp_i64(clamp_i64(source_time - origin) - total_pause);
    if shifted > 0 { shifted } else { 0 }
}

pub fn adjusted_camera_timestamp(source_time: i64, origin: i64, total_pause: i64) -> (timestamp:
    i64)
    ensures
        timestamp == spec_adjusted_camera_timestamp(source_time, origin, total_pause),
{
    let shifted: i64 = saturating_sub_i64(saturating_sub_i64(source_time, origin), total_pause);
    if shifted > 0 {
        shifted
    } else {
        0
    }
}

/// The length of the camera track: through the end of its last frame.
pub fn camera_duration_hns(last_written: i64, frame_duration: i64) -> (duration: i64)
    ensures
        duration == (if clamp_i64(last_written + frame_duration) > 0 {
            clamp_i64(last_written + frame_duration)
        } else {
            0
        }),
{
    let end: i64 = saturating_add_i64(last_written, frame_duration);
    if end > 0 {
        end
    } else {
        0
    }
}

/// A native format of the camera.
#[derive(Clone, Copy, Debug, PartialEq, Eq, Structural)]
pub struct CameraFormat {
    pub width: u32,
    pub height: u32,
    pub frame_rate_numerator: u32,
    pub frame_rate_denominator: u32,
}

/// `numerator / denominator` rounded to the nearest integer, at least 1.
pub open spec fn spec_divide_ratio(numerator: u32, denominator: u32) -> int {
    clamp((numerator + denominator / 2) / (denominator as int), 1, u32::MAX as int)
}

pub fn divide_ratio(numerator: u32, denominator: u32) -> (ratio: u32)
    requires
        denominator > 0,
    ensures
        ratio == spec_divide_ratio(numerator, denominator),
{
    let quotient: u64 = ((numerator as u64) + (denominator as u64) / 2) / (denominator as u64);
    if quotient < 1 {
        1
    } else if quotient > u32::MAX as u64 {
        u32::MAX
    } else {
        quotient as u32
    }
}

pub open spec fn abs_difference(a: int, b: int) -> int {
    if a > b { a - b } else { b - a }
}

/// How far a format is from the wanted one: the size difference from
/// 1280x720 weighs a thousand times a frame per second.
pub open spec fn spec_format_score(format: CameraFormat, requested_frame_rate: u32) -> int {
    let size_delta = abs_difference(format.width as int, TARGET_WIDTH as int) + abs_difference(
        format.height as int,
        TARGET_HEIGHT as int,
    );
    let rate_delta = abs_difference(
        spec_divide_ratio(format.frame_rate_numerator, format.frame_rate_denominator),
        requested_frame_rate as int,
    );
    size_delta * 1000 + rate_delta
}

pub fn format_score(format: CameraFormat, requested_frame_rate: u32) -> (score: u64)
    requires
        format.frame_rate_denominator > 0,
    ensures
        score == spec_format_score(format, requested_frame_rate),
{
    let width_delta: u64 = if format.width > TARGET_WIDTH {
        (format.width - TARGET_WIDTH) as u64
    } else {
        (TARGET_WIDTH - format.width) as u64
    };
    let height_delta: u64 = if format.height > TARGET_HEIGHT {
        (format.height - TARGET_HEIGHT) as u64
    } else {
        (TARGET_HEIGHT - format.height) as u64
    };
    let frame_rate: u32 = divide_ratio(format.frame_rate_numerator, format.frame_rate_denominator);
    let rate_delta: u64 = if frame_rate > requested_frame_rate {
        (frame_rate - requested_frame_rate) as u64
    } else {
        (requested_frame_rate - frame_rate) as u64
    };
    (width_delta + height_delta) * 1000 + rate_delta
}

pub open spec fn format_is_usable(format: CameraFormat) -> bool {
    format.width > 0 && format.height > 0 && format.width % 2 == 0 && format.height % 2 == 0
        && format.frame_rate_numerator > 0 && format.frame_rate_denominator > 0
}

/// The format whose score is lowest, the first of equals; none for no formats.
pub fn best_format(formats: &Vec<CameraFormat>, requested_frame_rate: u32) -> (best: Option<
    CameraFormat,
>)
    requires
        forall|i: int| 0 <= i < formats@.len() ==> (#[trigger] formats@[i]).frame_rate_denominator > 0,
    ensures
        formats@.len() == 0 <==> best is None,
        best matches Some(chosen) ==> exists|i: int|
            0 <= i < formats@.len() && formats@[i] == chosen && (forall|j: int|
                0 <= j < i ==> spec_format_score(#[trigger] formats@[j], requested_frame_rate)
                    > spec_format_score(chosen, requested_frame_rate)) && (forall|j: int|
                0 <= j < formats@.len() ==> spec_format_score(#[trigger] formats@[j], requested_frame_rate)
                    >= spec_format_score(chosen, requested_frame_rate)),
{
    if formats.len() == 0 {
        return None;
    }
    let mut best_index: usize = 0;
    let mut best_score: u64 = format_score(formats[0], requested_frame_rate);
    let mut index: usize = 1;
    while index < formats.len()
        invariant
            forall|i: int| 0 <= i < formats@.len() ==> (#[trigger] formats@[i]).frame_rate_denominator > 0,
            1 <= index <= formats@.len(),
            best_index < index,
            best_score == spec_format_score(formats@[best_index as int], requested_frame_rate),
            forall|j: int|
                0 <= j < best_index ==> spec_format_score(#[trigger] formats@[j], requested_frame_rate)
                    > best_score,
            forall|j: int|
                0 <= j < index ==> spec_format_score(#[trigger] formats@[j], requested_frame_rate)
                    >= best_score,
        decreases formats@.len() - index,
    {
        let score: u64 = format_score(formats[index], requested_frame_rate);
        if score < best_score {
            best_index = index;
            best_score = score;
        }
        index = index + 1;
    }
    Some(formats[best_index])
}

/// Reads a native format from its packed frame size and frame rate (high 32
/// bits first); refuses empty or odd sizes and a zero rate.
pub fn format_from_packed(size: u64, rate: u64) -> (format: Result<CameraFormat, RecorderError>)
    ensures
        match format {
            Ok(found) => format_is_usable(found) && found.width == size / 0x1_0000_0000
                && found.height == size % 0x1_0000_0000 && found.frame_rate_numerator == rate
                / 0x1_0000_0000 && found.frame_rate_denominator == rate % 0x1_0000_0000,
            Err(error) => error.code@ == "CONFIGURATION_ERROR"@ && error.message@
                == "Camera format has invalid dimensions or frame rate"@ && !format_is_usable(
                CameraFormat {
                    width: (size / 0x1_0000_0000) as u32,
                    height: (size % 0x1_0000_0000) as u32,
                    frame_rate_numerator: (rate / 0x1_0000_0000) as u32,
                    frame_rate_denominator: (rate % 0x1_0000_0000) as u32,
                },
            ),
        },
{
    let format = CameraFormat {
        width: (size / 0x1_0000_0000) as u32,
        height: (size % 0x1_0000_0000) as u32,
        frame_rate_numerator: (rate / 0x1_0000_0000) as u32,
        frame_rate_denominator: (rate % 0x1_0000_0000) as u32,
    };
    if format.width == 0 || format.height == 0 || format.width % 2 != 0 || format.height % 2 != 0
        || format.frame_rate_numerator == 0 || format.frame_rate_denominator == 0 {
        return Err(RecorderError::configuration("Camera format has invalid dimensions or frame rate"));
    }
    Ok(format)
}

/// Two 32-bit values packed into one, the first in the high half.
pub fn pack_ratio(numerator: u32, denominator: u32) -> (packed: u64)
    ensures
        packed == numerator * 0x1_0000_0000 + denominator,
{
    assert((numerator as u64) * 0x1_0000_0000 <= 0xffff_ffff * 0x1_0000_0000) by (nonlinear_arith);
    (numerator as u64) * 0x1_0000_0000 + (denominator as u64)
}

/// The H.264 bitrate of the camera track: eight bits per pixel per second,
/// kept between 4 and 40 Mbit/s.
pub fn camera_bitrate(width: u32, height: u32) -> (bitrate: u32)
    ensures
        bitrate == clamp(width * height * 8, 4_000_000, 40_000_000),
{
    assert((width as u64) * (height as u64) <= 0xffff_ffff * 0xffff_ffff) by (nonlinear_arith);
    let pixels: u64 = (width as u64) * (height as u64);
    let bits: u64 = if pixels > u64::MAX / 8 { u64::MAX } else { pixels * 8 };
    if bits < 4_000_000 {
        4_000_000
    } else if bits > 40_000_000 {
        40_000_000
    } else {
        bits as u32
    }
}

/// The camera accepts frame rates from 1 to 240.
pub fn validate_frame_rate(frame_rate: u32) -> (valid: Result<(), RecorderError>)
    ensures
        valid is Ok <==> 1 <= frame_rate <= 240,
        valid matches Err(error) ==> error.code@ == "CONFIGURATION_ERROR"@ && error.message@
            == "Camera frame rate must be between 1 and 240"@,
{
    if frame_rate < 1 || frame_rate > 240 {
        return Err(RecorderError::configuration("Camera frame rate must be between 1 and 240"));
    }
    Ok(())
}

/// Queues a frame that arrived before the screen's first frame, dropping the
/// oldest when the queue is full.
pub fn buffer_pending_frame<T>(pending: &mut VecDeque<T>, frame: T)
    ensures
        final(pending)@ == (if old(pending)@.len() >= MAX_PENDING_FRAMES {
            old(pending)@.drop_first()
        } else {
            old(pending)@
        }).push(frame),
{
    if pending.len() >= MAX_PENDING_FRAMES {
        pending.pop_front();
    }
    pending.push_back(frame);
}

/// What happens to a frame that just arrived.
#[derive(Clone, Copy, Debug, PartialEq, Eq, Structural)]
pub enum FrameDisposition {
    /// The track is paused: the frame is dropped.
    Skip,
    /// The screen has not started yet: the frame waits.
    Hold,
    /// The frame goes to the writer.
    Write,
}

/// The camera track's timeline.
pub struct CameraTimeline {
    pub synchronized: bool,
    pub source_origin: Option<i64>,
    pub paused: bool,
    pub pause_started: Option<i64>,
    pub total_pause: i64,
    pub last_capture: Option<CameraCapturePoint>,
    pub last_written: Option<i64>,
    pub first_written: Option<i64>,
}

impl CameraTimeline {
    pub fn new() -> (timeline: Self)
        ensures
            !timeline.synchronized,
            timeline.source_origin is None,
            !timeline.paused,
            timeline.pause_started is None,
            timeline.total_pause == 0,
            timeline.last_capture is None,
            timeline.last_written is None,
            timeline.first_written is None,
    {
        CameraTimeline {
            synchronized: false,
            source_origin: None,
            paused: false,
            pause_started: None,
            total_pause: 0,
            last_capture: None,
            last_written: None,
            first_written: None,
        }
    }

    /// Notes a captured frame and says what to do with it.
    pub fn frame_arrived(&mut self, capture: CameraCapturePoint) -> (disposition: FrameDisposition)
        ensures
            final(self).last_capture == Some(capture),
            final(self).synchronized == old(self).synchronized,
            final(self).source_origin == old(self).source_origin,
            final(self).paused == old(self).paused,
            final(self).pause_started == old(self).pause_started,
            final(self).total_pause == old(self).total_pause,
            final(self).last_written == old(self).last_written,
            final(self).first_written == old(self).first_written,
            disposition == (if old(self).paused {
                FrameDisposition::Skip
            } else if !old(self).synchronized {
                FrameDisposition::Hold
            } else {
                FrameDisposition::Write
            }),
    {
        self.last_capture = Some(capture);
        if self.paused {
            FrameDisposition::Skip
        } else if !self.synchronized {
            FrameDisposition::Hold
        } else {
            FrameDisposition::Write
        }
    }

    /// Ties the camera's source clock to the screen's first frame.
    pub fn sync(&mut self, screen_time: MonotonicTime) -> (synced: Result<(), RecorderError>)
        ensures
            match synced {
                Ok(()) => !old(self).synchronized && old(self).last_capture is Some
                    && final(self).synchronized && final(self).source_origin == Some(
                    spec_bridge_source_time(old(self).last_capture->0, screen_time) as i64,
                ),
                Err(error) => *final(self) == *old(self) && (if old(self).synchronized {
                    error.code@ == "INVALID_STATE"@ && error.message@
                        == "Camera is already synchronized"@
                } else {
                    old(self).last_capture is None && error.code@ == "CAPTURE_ERROR"@
                        && error.message@ == "Camera has not produced a frame"@
                }),
            },
            final(self).paused == old(self).paused,
            final(self).pause_started == old(self).pause_started,
            final(self).total_pause == old(self).total_pause,
            final(self).last_capture == old(self).last_capture,
            final(self).last_written == old(self).last_written,
            final(self).first_written == old(self).first_written,
    {
        if self.synchronized {
            return Err(RecorderError::invalid_state("Camera is already synchronized"));
        }
        let capture = match self.last_capture {
            Some(capture) => capture,
            None => {
                return Err(RecorderError::capture("Camera has not produced a frame"));
            },
        };
        self.source_origin = Some(bridge_source_time(capture, screen_time));
        self.synchronized = true;
        Ok(())
    }

    /// Pauses the track; the pause starts at the last captured frame (not
    /// before the origin) unless one is already pending.
    pub fn pause(&mut self) -> (paused: Result<(), RecorderError>)
        ensures
            match paused {
                Ok(()) => old(self).synchronized && !old(self).paused && final(self).paused
                    && final(self).pause_started == (match old(self).pause_started {
                    Some(start) => Some(start),
                    None => match (old(self).last_capture, old(self).source_origin) {
                        (Some(capture), Some(origin)) => Some(
                            if capture.source_time > origin {
                                capture.source_time
                            } else {
                                origin
                            },
                        ),
                        _ => None,
                    },
                }),
                Err(error) => *final(self) == *old(self) && error.code@ == "INVALID_STATE"@ && (if !old(
                    self,
                ).synchronized {
                    error.message@ == "Cannot pause camera before screen synchronization"@
                } else {
                    old(self).paused && error.message@ == "Camera is already paused"@
                }),
            },
            final(self).synchronized == old(self).synchronized,
            final(self).source_origin == old(self).source_origin,
            final(self).total_pause == old(self).total_pause,
            final(self).last_capture == old(self).last_capture,
            final(self).last_written == old(self).last_written,
            final(self).first_written == old(self).first_written,
    {
        if !self.synchronized {
            return Err(
                RecorderError::invalid_state("Cannot pause camera before screen synchronization"),
            );
        }
        if self.paused {
            return Err(RecorderError::invalid_state("Camera is already paused"));
        }
        self.paused = true;
        if self.pause_started.is_none() {
            self.pause_started = match (self.last_capture, self.source_origin) {
                (Some(capture), Some(origin)) => Some(
                    if capture.source_time > origin {
                        capture.source_time
                    } else {
                        origin
                    },
                ),
                _ => None,
            };
        }
        Ok(())
    }

    /// Resumes a paused track.
    pub fn resume(&mut self) -> (resumed: Result<(), RecorderError>)
        ensures
            match resumed {
                Ok(()) => old(self).paused && !final(self).paused,
                Err(error) => !old(self).paused && !final(self).paused && error.code@
                    == "INVALID_STATE"@ && error.message@ == "Camera is not paused"@,
            },
            final(self).synchronized == old(self).synchronized,
            final(self).source_origin == old(self).source_origin,
            final(self).pause_started == old(self).pause_started,
            final(self).total_pause == old(self).total_pause,
            final(self).last_capture == old(self).last_capture,
            final(self).last_written == old(self).last_written,
            final(self).first_written == old(self).first_written,
    {
        if !self.paused {
            return Err(RecorderError::invalid_state("Camera is not paused"));
        }
        self.paused = false;
        Ok(())
    }

    /// The timestamp a frame is written at, or `None` when it is dropped: it
    /// came before the origin, or it would not come after the last written
    /// frame. The first frame after a pause closes the pause.
    pub fn frame_timestamp(&mut self, source_time: i64) -> (timestamp: Result<Option<i64>, RecorderError>)
        ensures
            match old(self).source_origin {
                None => *final(self) == *old(self) && (timestamp matches Err(error) && error.code@
                    == "CAPTURE_ERROR"@ && error.message@ == "Camera is not synchronized"@),
                Some(origin) => if source_time < origin {
                    *final(self) == *old(self) && timestamp == Ok::<Option<i64>, RecorderError>(None)
                } else {
                    let total = match old(self).pause_started {
                        Some(start) => clamp_i64(
                            old(self).total_pause + clamp_i64(source_time - start),
                        ),
                        None => old(self).total_pause as int,
                    };
                    let at = spec_adjusted_camera_timestamp(source_time, origin, total as i64);
                    final(self).total_pause == total && final(self).pause_started is None
                        && timestamp == Ok::<Option<i64>, RecorderError>(
                        if old(self).last_written matches Some(last) && at <= last {
                            None
                        } else {
                            Some(at as i64)
                        },
                    )
                },
            },
            final(self).synchronized == old(self).synchronized,
            final(self).source_origin == old(self).source_origin,
            final(self).paused == old(self).paused,
            final(self).last_capture == old(self).last_capture,
            final(self).last_written == old(self).last_written,
            final(self).first_written == old(self).first_written,
    {
        let origin = match self.source_origin {
            Some(origin) => origin,
            None => {
                return Err(RecorderError::capture("Camera is not synchronized"));
            },
        };
        if source_time < origin {
            return Ok(None);
        }
        match self.pause_started {
            Some(start) => {
                self.total_pause = saturating_add_i64(
                    self.total_pause,
                    saturating_sub_i64(source_time, start),
                );
                self.pause_started = None;
            },
            None => {},
        }
        let timestamp = adjusted_camera_timestamp(source_time, origin, self.total_pause);
        match self.last_written {
            Some(last) => {
                if timestamp <= last {
                    return Ok(None);
                }
            },
            None => {},
        }
        Ok(Some(timestamp))
    }

    /// Records that a frame was written at `timestamp`.
    pub fn frame_written(&mut self, timestamp: i64)
        ensures
            final(self).last_written == Some(timestamp),
            final(self).first_written == (match old(self).first_written {
                Some(first) => Some(first),
                None => Some(timestamp),
            }),
            final(self).synchronized == old(self).synchronized,
            final(self).source_origin == old(self).source_origin,
            final(self).paused == old(self).paused,
            final(self).pause_started == old(self).pause_started,
            final(self).total_pause == old(self).total_pause,
            final(self).last_capture == old(self).last_capture,
    {
        if self.first_written.is_none() {
            self.first_written = Some(timestamp);
        }
        self.last_written = Some(timestamp);
    }

    /// Whether the track can be finished: it must have been synchronized and
    /// have written a frame. The value is the track's duration.
    pub fn finished_duration(&self, frame_duration: i64) -> (duration: Result<i64, RecorderError>)
        ensures
            match duration {
                Ok(hns) => self.synchronized && (self.last_written matches Some(last) && hns == (
                if clamp_i64(last + frame_duration) > 0 {
                    clamp_i64(last + frame_duration)
                } else {
                    0
                })),
                Err(error) => error.code@ == "STOP_FAILED"@ && (if !self.synchronized {
                    error.message@ == "Camera was not synchronized to the first screen frame"@
                } else {
                    self.last_written is None && error.message@
                        == "Camera did not record a synchronized frame"@
                }),
            },
    {
        if !self.synchronized {
            return Err(RecorderError::stop("Camera was not synchronized to the first screen frame"));
        }
        match self.last_written {
            Some(last) => Ok(camera_duration_hns(last, frame_duration)),
            None => Err(RecorderError::stop("Camera did not record a synchronized frame")),
        }
    }
}

/// What the camera worker does with a failure.
pub enum WorkerFailure {
    /// The first frame has not arrived: the start fails with the error and
    /// the worker stops.
    FailStart(RecorderError),
    /// The first failure of a running recording: reported once, and every
    /// later command is answered with it.
    Report(RecorderError),
    /// The recording already failed; nothing more is reported.
    Ignore,
}

/// The camera worker's own state between events: whether the start still
/// waits for the first frame, and the failure that ended the recording.
pub struct CameraWorkerState {
    pub awaiting_start: bool,
    pub terminal_error: Option<RecorderError>,
}

impl CameraWorkerState {
    pub fn new() -> (state: Self)
        ensures
            state.awaiting_start,
            state.terminal_error is None,
    {
        CameraWorkerState { awaiting_start: true, terminal_error: None }
    }

    /// A failure of the capture: a frame that could not be written or
    /// requested, a capture error, the end of the stream.
    pub fn fail(&mut self, error: RecorderError) -> (action: WorkerFailure)
        ensures
            old(self).awaiting_start ==> (action matches WorkerFailure::FailStart(reported)
                && reported == error && !final(self).awaiting_start
                && final(self).terminal_error == old(self).terminal_error),
            !old(self).awaiting_start && old(self).terminal_error is None ==> (
            action matches WorkerFailure::Report(reported) && reported == error
                && final(self).terminal_error == Some(error) && !final(self).awaiting_start),
            !old(self).awaiting_start && old(self).terminal_error is Some ==> (action is Ignore
                && final(self).terminal_error == old(self).terminal_error
                && !final(self).awaiting_start),
    {
        if self.awaiting_start {
            self.awaiting_start = false;
            return WorkerFailure::FailStart(error);
        }
        if self.terminal_error.is_some() {
            return WorkerFailure::Ignore;
        }
        self.terminal_error = Some(error.clone());
        WorkerFailure::Report(error)
    }

    /// No event came in time: only a start that still waits for its first
    /// frame gives up.
    pub fn wait_timed_out(&mut self) -> (failure: Option<RecorderError>)
        ensures
            old(self).awaiting_start ==> (failure matches Some(error) && error.code@
                == "START_FAILED"@ && error.message@
                == "Timed out waiting for the first camera frame"@ && !final(self).awaiting_start),
            !old(self).awaiting_start ==> failure is None,
            final(self).terminal_error == old(self).terminal_error,
    {
        if !self.awaiting_start {
            return None;
        }
        self.awaiting_start = false;
        Some(RecorderError::start("Timed out waiting for the first camera frame"))
    }

    /// The event channel closed: a start fails, a running recording fails
    /// once; either way the worker stops.
    pub fn events_disconnected(&mut self) -> (action: WorkerFailure)
        ensures
            old(self).awaiting_start ==> (action matches WorkerFailure::FailStart(error)
                && error.code@ == "START_FAILED"@ && error.message@
                == "Camera worker event channel disconnected"@),
            !old(self).awaiting_start && old(self).terminal_error is None ==> (
            action matches WorkerFailure::Report(error) && error.code@ == "CAPTURE_ERROR"@
                && error.message@ == "Camera worker event channel disconnected"@
                && final(self).terminal_error == Some(error)),
            !old(self).awaiting_start && old(self).terminal_error is Some ==> action is Ignore,
            !final(self).awaiting_start,
    {
        if self.awaiting_start {
            self.awaiting_start = false;
            return WorkerFailure::FailStart(
                RecorderError::start("Camera worker event channel disconnected"),
            );
        }
        self.fail(RecorderError::capture("Camera worker event channel disconnected"))
    }

    /// Frames are written until the recording fails.
    pub fn takes_frames(&self) -> (takes: bool)
        ensures
            takes == self.terminal_error is None,
    {
        self.terminal_error.is_none()
    }

    /// A frame was written; true for the first, which completes the start.
    pub fn frame_written(&mut self) -> (first: bool)
        ensures
            first == old(self).awaiting_start,
            !final(self).awaiting_start,
            final(self).terminal_error == old(self).terminal_error,
    {
        let first = self.awaiting_start;
        self.awaiting_start = false;
        first
    }

    /// The answer to every command once the recording failed.
    pub fn command_refusal(&self) -> (refusal: Option<RecorderError>)
        ensures
            refusal == self.terminal_error,
    {
        match &self.terminal_error {
            Some(error) => Some(error.clone()),
            None => None,
        }
    }

    /// A failed synchronisation ends the recording unless it only came in
    /// the wrong state; it is answered to the caller, not reported again.
    pub fn sync_failed(&mut self, error: &RecorderError)
        ensures
            error.code@ != "INVALID_STATE"@ ==> final(self).terminal_error == Some(*error),
            error.code@ == "INVALID_STATE"@ ==> final(self).terminal_error == old(self).terminal_error,
            final(self).awaiting_start == old(self).awaiting_start,
    {
        if !same_text(error.code, "INVALID_STATE") {
            self.terminal_error = Some(error.clone());
        }
    }
}

/// `value` capped at `u32::MAX`.
pub open spec fn cap_u32(value: int) -> int {
    if value > u32::MAX { u32::MAX as int } else { value }
}

/// The bytes an RGB32 frame of `width` x `height` pixels needs, with each
/// product saturating at `u32::MAX`.
pub open spec fn rgb_frame_bytes(width: u32, height: u32) -> int {
    cap_u32(cap_u32(width * height) * 4)
}

/// A camera frame must hold every pixel of the format it was delivered in.
pub fn check_rgb_frame(width: u32, height: u32, length: usize) -> (complete: Result<(), RecorderError>)
    ensures
        complete is Ok <==> length >= rgb_frame_bytes(width, height),
        complete matches Err(error) ==> error.code@ == "CAPTURE_ERROR"@ && error.message@
            == "Camera returned an incomplete RGB frame"@,
{
    let pixels: u32 = match width.checked_mul(height) {
        Some(product) => product,
        None => u32::MAX,
    };
    let bytes: u32 = match pixels.checked_mul(4) {
        Some(product) => product,
        None => u32::MAX,
    };
    if (length as u64) < (bytes as u64) {
        return Err(RecorderError::capture("Camera returned an incomplete RGB frame"));
    }
    Ok(())
}

} // verus!
