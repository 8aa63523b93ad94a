use poratake_daemon_win::recorder_types::RecorderError;
use poratake_daemon_win::recording_camera::{check_rgb_frame, CameraWorkerState, WorkerFailure};

#[test]
fn a_failure_before_the_first_frame_fails_the_start() {
    let mut state = CameraWorkerState::new();
    let WorkerFailure::FailStart(error) = state.fail(RecorderError::capture("no device")) else {
        panic!("the start is still waiting");
    };
    assert_eq!(error.message, "no device");
    assert!(!state.awaiting_start);
    assert!(state.terminal_error.is_none());
}

#[test]
fn only_the_first_failure_of_a_recording_is_reported() {
    let mut state = CameraWorkerState::new();
    assert!(state.frame_written());
    assert!(!state.frame_written());
    let WorkerFailure::Report(error) = state.fail(RecorderError::capture("first")) else {
        panic!("the first failure is reported");
    };
    assert_eq!(error.message, "first");
    assert!(matches!(state.fail(RecorderError::capture("second")), WorkerFailure::Ignore));
    assert!(!state.takes_frames());
    assert_eq!(state.command_refusal().map(|error| error.message), Some("first".to_string()));
}

#[test]
fn a_timeout_only_ends_a_waiting_start() {
    let mut state = CameraWorkerState::new();
    let error = state.wait_timed_out().unwrap();
    assert_eq!(error.code, "START_FAILED");
    assert_eq!(error.message, "Timed out waiting for the first camera frame");
    assert!(state.wait_timed_out().is_none());
}

#[test]
fn a_lost_event_channel_fails_start_or_recording() {
    let mut waiting = CameraWorkerState::new();
    let WorkerFailure::FailStart(error) = waiting.events_disconnected() else {
        panic!("start fails");
    };
    assert_eq!(error.code, "START_FAILED");

    let mut running = CameraWorkerState::new();
    running.frame_written();
    let WorkerFailure::Report(error) = running.events_disconnected() else {
        panic!("running recording fails once");
    };
    assert_eq!(error.code, "CAPTURE_ERROR");
    assert_eq!(error.message, "Camera worker event channel disconnected");
}

#[test]
fn a_sync_refused_for_its_state_does_not_end_the_recording() {
    let mut state = CameraWorkerState::new();
    state.frame_written();
    state.sync_failed(&RecorderError::invalid_state("Camera is already synchronized"));
    assert!(state.takes_frames());
    state.sync_failed(&RecorderError::capture("clock failed"));
    assert!(!state.takes_frames());
    assert!(state.command_refusal().is_some());
}

#[test]
fn a_camera_frame_must_hold_every_pixel() {
    assert!(check_rgb_frame(640, 480, 640 * 480 * 4).is_ok());
    let error = check_rgb_frame(640, 480, 640 * 480 * 4 - 1).err().unwrap();
    assert_eq!(error.code, "CAPTURE_ERROR");
    assert_eq!(error.message, "Camera returned an incomplete RGB frame");
    assert!(check_rgb_frame(0, 480, 0).is_ok());
    assert!(check_rgb_frame(u32::MAX, 2, (u32::MAX as usize) - 1).is_err());
}
