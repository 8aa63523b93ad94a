use vstd::prelude::*;
use std::path::{Path, PathBuf};
use crate::paths::{borrow_path, path_from_string, path_parent};

verus! {

/// The recorder's externally visible state.
#[derive(Clone, Copy, Debug, PartialEq, Eq, Structural)]
pub enum RecorderState {
    Idle,
    Recording,
    Paused,
}

impl RecorderState {
    pub open spec fn spec_name(self) -> Seq<char> {
        match self {
            RecorderState::Idle => "idle"@,
            RecorderState::Recording => "recording"@,
            RecorderState::Paused => "paused"@,
        }
    }

    /// The lowercase name that the protocol reports for the state.
    pub fn as_str(self) -> (name: &'static str)
        ensures
            name@ == self.spec_name(),
    {
        match self {
            RecorderState::Idle => "idle",
            RecorderState::Recording => "recording",
            RecorderState::Paused => "paused",
        }
    }
}

/// A screen area in virtual-desktop pixels: origin and size.
#[derive(Clone, Copy, Debug, PartialEq, Eq, Structural)]
pub struct CaptureRect {
    pub x: i32,
    pub y: i32,
    pub width: i32,
    pub height: i32,
}

impl CaptureRect {
    /// The right edge, `x + width`, or `None` when it does not fit in `i32`.
    pub fn right(self) -> (edge: Option<i32>)
        ensures
            edge == (if i32::MIN <= self.x + self.width <= i32::MAX {
                Some((self.x + self.width) as i32)
            } else {
                None::<i32>
            }),
    {
        self.x.checked_add(self.width)
    }

    /// The bottom edge, `y + height`, or `None` when it does not fit in `i32`.
    pub fn bottom(self) -> (edge: Option<i32>)
        ensures
            edge == (if i32::MIN <= self.y + self.height <= i32::MAX {
                Some((self.y + self.height) as i32)
            } else {
                None::<i32>
            }),
    {
        self.y.checked_add(self.height)
    }
}

/// A recording error: a protocol error code and a human readable message.
#[derive(Debug)]
pub struct RecorderError {
    pub code: &'static str,
    pub message: String,
}

impl Clone for RecorderError {
    fn clone(&self) -> (copy: Self)
        ensures
            copy == *self,
    {
        RecorderError { code: self.code, message: self.message.clone() }
    }
}

impl RecorderError {
    pub fn invalid_params(message: &str) -> (error: Self)
        ensures
            error.code@ == "INVALID_PARAMS"@,
            error.message@ == message@,
    {
        RecorderError { code: "INVALID_PARAMS", message: message.to_string() }
    }

    pub fn invalid_state(message: &str) -> (error: Self)
        ensures
            error.code@ == "INVALID_STATE"@,
            error.message@ == message@,
    {
        RecorderError { code: "INVALID_STATE", message: message.to_string() }
    }

    pub fn configuration(message: &str) -> (error: Self)
        ensures
            error.code@ == "CONFIGURATION_ERROR"@,
            error.message@ == message@,
    {
        RecorderError { code: "CONFIGURATION_ERROR", message: message.to_string() }
    }

    pub fn capture(message: &str) -> (error: Self)
        ensures
            error.code@ == "CAPTURE_ERROR"@,
            error.message@ == message@,
    {
        RecorderError { code: "CAPTURE_ERROR", message: message.to_string() }
    }

    pub fn target_closed(message: &str) -> (error: Self)
        ensures
            error.code@ == "TARGET_CLOSED"@,
            error.message@ == message@,
    {
        RecorderError { code: "TARGET_CLOSED", message: message.to_string() }
    }

    pub fn start(message: &str) -> (error: Self)
        ensures
            error.code@ == "START_FAILED"@,
            error.message@ == message@,
    {
        RecorderError { code: "START_FAILED", message: message.to_string() }
    }

    pub fn stop(message: &str) -> (error: Self)
        ensures
            error.code@ == "STOP_FAILED"@,
            error.message@ == message@,
    {
        RecorderError { code: "STOP_FAILED", message: message.to_string() }
    }
}

/// A file written under a temporary name, moved to its final name when the
/// recording is committed.
pub struct StagedAsset {
    pub temporary_path: PathBuf,
    pub output_path: PathBuf,
}

/// The project directory for a recording: the output path's parent.
pub fn project_dir_of(parent: Option<&Path>) -> (dir: Result<&Path, RecorderError>)
    ensures
        match parent {
            Some(found) => dir == Ok::<&Path, RecorderError>(found),
            None => dir matches Err(error) && error.code@ == "CONFIGURATION_ERROR"@
                && error.message@ == "outputPath must have a parent directory"@,
        },
{
    match parent {
        Some(found) => Ok(found),
        None => Err(RecorderError::configuration("outputPath must have a parent directory")),
    }
}

/// The directory a recording is written into: the output path's parent, an
/// error for a path that has none.
pub fn recording_project_dir(output_path: &Path) -> (dir: Result<&Path, RecorderError>)
    ensures
        dir matches Err(error) ==> error.code@ == "CONFIGURATION_ERROR"@ && error.message@
            == "outputPath must have a parent directory"@,
{
    project_dir_of(path_parent(output_path))
}

/// The parameters of a recording start request as the protocol carries them.
pub struct StartRequest {
    pub x: Option<i32>,
    pub y: Option<i32>,
    pub width: Option<i32>,
    pub height: Option<i32>,
    pub display_id: Option<u32>,
    pub window_id: Option<i64>,
    pub frame_rate: u32,
    pub output_path: String,
    pub keyboard_enabled: bool,
    pub include_audio: bool,
    pub mic_enabled: bool,
    pub mic_device_id: Option<String>,
    pub mic_device_name: Option<String>,
    pub camera_enabled: bool,
    pub camera_device_id: Option<String>,
    pub camera_device_name: Option<String>,
    pub ios_device_id: Option<String>,
}

/// The frame rates that every platform's recorder accepts.
pub open spec fn frame_rate_supported(frame_rate: u32) -> bool {
    1 <= frame_rate <= 240
}

impl StartRequest {
    /// Checks the values that the protocol itself bounds: the frame rate.
    pub fn validate(&self) -> (valid: Result<(), String>)
        ensures
            valid is Ok <==> frame_rate_supported(self.frame_rate),
            valid matches Err(message) ==> message@ == "frameRate must be between 1 and 240"@,
    {
        if self.frame_rate < 1 || self.frame_rate > 240 {
            return Err("frameRate must be between 1 and 240".to_string());
        }
        Ok(())
    }
}

/// The capture area, when all four of its coordinates were given.
pub open spec fn requested_rect(wire: StartRequest) -> Option<CaptureRect> {
    match (wire.x, wire.y, wire.width, wire.height) {
        (Some(x), Some(y), Some(width), Some(height)) => Some(
            CaptureRect { x: x, y: y, width: width, height: height },
        ),
        _ => None,
    }
}

/// Both far edges of the area fit in `i32`.
pub open spec fn rect_in_range(rect: CaptureRect) -> bool {
    &&& i32::MIN <= rect.x + rect.width <= i32::MAX
    &&& i32::MIN <= rect.y + rect.height <= i32::MAX
}

/// The window handle as the platform's pointer-sized integer.
pub open spec fn requested_window(wire: StartRequest) -> Option<isize> {
    match wire.window_id {
        Some(handle) => Some(handle as isize),
        None => None,
    }
}

/// The checks on the request alone, in the order they are made: the code and
/// message of the first that fails.
pub open spec fn request_refusal(wire: StartRequest) -> Option<(Seq<char>, Seq<char>)> {
    if wire.output_path@.len() == 0 {
        Some(("INVALID_PARAMS"@, "outputPath is required"@))
    } else if !frame_rate_supported(wire.frame_rate) {
        Some(("INVALID_PARAMS"@, "frameRate must be between 1 and 240"@))
    } else if requested_rect(wire) matches Some(rect) && !rect_in_range(rect) {
        Some(("INVALID_PARAMS"@, "capture area is outside the supported coordinate range"@))
    } else if wire.ios_device_id is Some {
        Some(("CONFIGURATION_ERROR"@, "iOS device recording is not supported on Windows"@))
    } else {
        None
    }
}

/// The checks on the capture target, made once the output directory exists.
pub open spec fn target_refusal(wire: StartRequest) -> Option<(Seq<char>, Seq<char>)> {
    if requested_window(wire) == Some(0isize) {
        Some(("INVALID_PARAMS"@, "windowId is not a window"@))
    } else if requested_rect(wire) is None && wire.window_id is None && (wire.display_id matches Some(
        id,
    ) && id > i32::MAX) {
        Some(("INVALID_PARAMS"@, "displayId is outside the supported range"@))
    } else {
        None
    }
}

/// Every check of a start request, in order, given whether the output path
/// has a parent and whether that parent is a directory.
pub open spec fn start_refusal(wire: StartRequest, has_parent: bool, parent_is_dir: bool) -> Option<
    (Seq<char>, Seq<char>),
> {
    if request_refusal(wire) is Some {
        request_refusal(wire)
    } else if !has_parent {
        Some(("CONFIGURATION_ERROR"@, "outputPath must have a parent directory"@))
    } else if !parent_is_dir {
        Some(("CONFIGURATION_ERROR"@, "outputPath parent directory does not exist"@))
    } else {
        target_refusal(wire)
    }
}

/// The display to record: only a full-display recording names one.
pub open spec fn requested_display(wire: StartRequest) -> Option<i32> {
    if requested_rect(wire) is None && wire.window_id is None {
        match wire.display_id {
            Some(id) => Some(id as i32),
            None => None,
        }
    } else {
        None
    }
}

/// What a recording is made from, checked.
pub struct RecordingConfig {
    pub capture_rect: Option<CaptureRect>,
    pub display_id: Option<i32>,
    pub window_id: Option<isize>,
    pub frame_rate: u32,
    pub output_path: PathBuf,
    pub keyboard_enabled: bool,
    pub include_audio: bool,
    pub mic_enabled: bool,
    pub mic_device_id: Option<String>,
    pub mic_device_name: Option<String>,
    pub camera_enabled: bool,
    pub camera_device_id: Option<String>,
    pub camera_device_name: Option<String>,
}

/// The outcome of a start request: the first refusal, or a configuration
/// that carries the request's values over.
pub open spec fn start_outcome(
    outcome: Result<RecordingConfig, RecorderError>,
    wire: StartRequest,
    has_parent: bool,
    parent_is_dir: bool,
) -> bool {
    match outcome {
        Ok(config) => {
            &&& start_refusal(wire, has_parent, parent_is_dir) is None
            &&& config.capture_rect == requested_rect(wire)
            &&& config.display_id == requested_display(wire)
            &&& config.window_id == requested_window(wire)
            &&& config.frame_rate == wire.frame_rate
            &&& config.keyboard_enabled == wire.keyboard_enabled
            &&& config.include_audio == wire.include_audio
            &&& config.mic_enabled == wire.mic_enabled
            &&& config.mic_device_id == wire.mic_device_id
            &&& config.mic_device_name == wire.mic_device_name
            &&& config.camera_enabled == wire.camera_enabled
            &&& config.camera_device_id == wire.camera_device_id
            &&& config.camera_device_name == wire.camera_device_name
        },
        Err(error) => start_refusal(wire, has_parent, parent_is_dir) == Some(
            (error.code@, error.message@),
        ),
    }
}

impl RecordingConfig {
    /// Checks a start request whose output path, parent and parent directory
    /// are already known, and builds the configuration.
    pub fn from_checked_wire(
        wire: StartRequest,
        output_path: PathBuf,
        has_parent: bool,
        parent_is_dir: bool,
    ) -> (config: Result<Self, RecorderError>)
        ensures
            start_outcome(config, wire, has_parent, parent_is_dir),
            config matches Ok(made) ==> made.output_path == output_path,
    {
        if wire.output_path.as_str().unicode_len() == 0 {
            return Err(RecorderError::invalid_params("outputPath is required"));
        }
        if let Err(message) = wire.validate() {
            return Err(RecorderError::invalid_params(message.as_str()));
        }
        let capture_rect = match (wire.x, wire.y, wire.width, wire.height) {
            (Some(x), Some(y), Some(width), Some(height)) => {
                let rect = CaptureRect { x, y, width, height };
                if rect.right().is_none() || rect.bottom().is_none() {
                    return Err(
                        RecorderError::invalid_params(
                            "capture area is outside the supported coordinate range",
                        ),
                    );
                }
                Some(rect)
            },
            _ => None,
        };
        if wire.ios_device_id.is_some() {
            return Err(
                RecorderError::configuration("iOS device recording is not supported on Windows"),
            );
        }
        if !has_parent {
            return Err(RecorderError::configuration("outputPath must have a parent directory"));
        }
        if !parent_is_dir {
            return Err(RecorderError::configuration("outputPath parent directory does not exist"));
        }
        let window_id = match wire.window_id {
            Some(handle) => Some(handle as isize),
            None => None,
        };
        if window_id == Some(0isize) {
            return Err(RecorderError::invalid_params("windowId is not a window"));
        }
        let display_id = if capture_rect.is_none() && window_id.is_none() {
            match wire.display_id {
                Some(id) => {
                    if id > 2147483647u32 {
                        return Err(
                            RecorderError::invalid_params("displayId is outside the supported range"),
                        );
                    }
                    Some(id as i32)
                },
                None => None,
            }
        } else {
            None
        };
        Ok(RecordingConfig {
            capture_rect,
            display_id,
            window_id,
            frame_rate: wire.frame_rate,
            output_path,
            keyboard_enabled: wire.keyboard_enabled,
            include_audio: wire.include_audio,
            mic_enabled: wire.mic_enabled,
            mic_device_id: wire.mic_device_id,
            mic_device_name: wire.mic_device_name,
            camera_enabled: wire.camera_enabled,
            camera_device_id: wire.camera_device_id,
            camera_device_name: wire.camera_device_name,
        })
    }

    /// Checks a start request and builds the configuration; `parent_is_dir`
    /// says whether the output path's parent is an existing directory.
    /// Whether a path has a parent depends on the platform's separators, so
    /// the outcome is stated for either answer.
    pub fn from_wire(wire: StartRequest, parent_is_dir: bool) -> (config: Result<Self, RecorderError>)
        ensures
            start_outcome(config, wire, true, parent_is_dir) || start_outcome(
                config,
                wire,
                false,
                parent_is_dir,
            ),
    {
        let output_path = path_from_string(wire.output_path.clone());
        let has_parent = path_parent(borrow_path(&output_path)).is_some();
        Self::from_checked_wire(wire, output_path, has_parent, parent_is_dir)
    }
}

} // verus!
