use poratake_daemon_win::recorder_control::{
    report_worker_failure, source_closed, worker_pause_allowed, worker_resume_allowed, ControllerPhase,
    ControllerState, FailureRoute, SourceClosed,
};
use poratake_daemon_win::recorder_types::{RecorderError, RecorderState};
use std::sync::mpsc::{channel, Sender};

type StartSender = Sender<Result<RecorderState, RecorderError>>;

fn deliver(error: RecorderError, start: &mut Option<StartSender>, failure: &mut Option<Sender<RecorderError>>) {
    match report_worker_failure(start, failure) {
        FailureRoute::Start(sender) => {
            let _ = sender.send(Err(error));
        }
        FailureRoute::Failure(sender) => {
            let _ = sender.send(error);
        }
        FailureRoute::Dropped => {}
    }
}

#[test]
fn post_start_failure_is_latched_once() {
    let (sender, receiver) = channel();
    let mut start_sender: Option<StartSender> = None;
    let mut failure_sender = Some(sender);

    deliver(RecorderError::capture("first"), &mut start_sender, &mut failure_sender);
    deliver(RecorderError::capture("second"), &mut start_sender, &mut failure_sender);

    let failures = receiver.try_iter().collect::<Vec<_>>();
    assert_eq!(failures.len(), 1);
    assert_eq!(failures[0].message, "first");
}

#[test]
fn a_failure_before_the_start_goes_to_the_waiting_request() {
    let (start, start_receiver) = channel();
    let (failure, failure_receiver) = channel();
    let mut start_sender: Option<StartSender> = Some(start);
    let mut failure_sender = Some(failure);

    deliver(RecorderError::start("no frame"), &mut start_sender, &mut failure_sender);

    let reports = start_receiver.try_iter().collect::<Vec<_>>();
    assert_eq!(reports.len(), 1);
    assert!(matches!(&reports[0], Err(error) if error.code == "START_FAILED"));
    assert!(failure_receiver.try_recv().is_err());
    assert!(start_sender.is_none());
    assert!(failure_sender.is_some());
}

#[test]
fn pre_start_worker_panic_reports_once_and_restores_idle() {
    let mut state = ControllerState {
        phase: ControllerPhase::Starting,
        state: RecorderState::Idle,
        has_worker: false,
        mic_muted: false,
        generation: 7,
    };

    let first = state.recover_worker_panic(7, false);
    let second = state.recover_worker_panic(7, false);

    let Some(error) = first else {
        panic!("pre-start panic should report a start failure");
    };
    assert_eq!(error.code, "START_FAILED");
    assert_eq!(error.message, "Recorder worker terminated unexpectedly");
    assert!(second.is_none());
    assert!(state.phase == ControllerPhase::Idle);
    assert_eq!(state.state, RecorderState::Idle);
}

#[test]
fn post_start_worker_panic_reports_once_and_restores_idle() {
    let mut state = ControllerState {
        phase: ControllerPhase::Running,
        state: RecorderState::Recording,
        has_worker: false,
        mic_muted: false,
        generation: 8,
    };

    let first = state.recover_worker_panic(8, true);
    let second = state.recover_worker_panic(8, true);

    assert_eq!(first.map(|error| error.code), Some("CAPTURE_ERROR"));
    assert!(second.is_none());
    assert!(state.phase == ControllerPhase::Idle);
    assert_eq!(state.state, RecorderState::Idle);
}

#[test]
fn a_stale_worker_panic_changes_nothing() {
    let mut state = ControllerState::new();
    assert_eq!(state.begin_start().ok(), Some(1));
    let before = state;
    assert!(state.recover_worker_panic(0, true).is_none());
    assert_eq!(state, before);
}

#[test]
fn only_an_idle_recorder_starts() {
    let mut state = ControllerState::new();
    assert!(state.begin_start().is_ok());
    assert_eq!(state.phase, ControllerPhase::Starting);
    let Err(error) = state.begin_start() else {
        panic!("a second start should be refused");
    };
    assert_eq!(error.code, "INVALID_STATE");
    assert_eq!(error.message, "Cannot start: recorder is idle");
}

#[test]
fn generations_advance_and_wrap() {
    let mut state = ControllerState { generation: u64::MAX, ..ControllerState::new() };
    assert_eq!(state.begin_start().ok(), Some(0));
    state.set_idle(0);
    assert_eq!(state.begin_start().ok(), Some(1));
}

#[test]
fn a_running_recording_pauses_resumes_and_stops() {
    let mut state = ControllerState::new();
    let generation = state.begin_start().ok().unwrap();
    state.set_running(RecorderState::Recording, generation);
    assert!(state.check_command(RecorderState::Recording, "pause").is_ok());
    let Err(error) = state.check_command(RecorderState::Paused, "resume") else {
        panic!("a recording recorder cannot resume");
    };
    assert_eq!(error.message, "Cannot resume: recorder is recording");
    state.set_running(RecorderState::Paused, generation);
    assert!(state.check_active("setCamera").is_ok());
    assert!(state.begin_stop().is_ok());
    assert_eq!(state.phase, ControllerPhase::Stopping);
    let Err(error) = state.begin_stop() else {
        panic!("a stopping recorder cannot stop again");
    };
    assert_eq!(error.message, "Cannot stop: recorder is idle");
    state.set_idle(generation);
    assert_eq!(state.phase, ControllerPhase::Idle);
    assert!(!state.has_worker);
}

#[test]
fn a_lost_worker_is_reported_as_a_capture_error() {
    let mut state = ControllerState::new();
    let generation = state.begin_start().ok().unwrap();
    state.set_running(RecorderState::Recording, generation);
    state.has_worker = false;
    let Err(error) = state.check_command(RecorderState::Recording, "pause") else {
        panic!("no worker to pause");
    };
    assert_eq!(error.code, "CAPTURE_ERROR");
    assert_eq!(error.message, "Recorder worker is unavailable");
    state.worker_lost();
    assert_eq!(state.phase, ControllerPhase::Idle);
}

#[test]
fn microphone_mute_is_forwarded_only_to_a_live_worker() {
    let mut state = ControllerState::new();
    assert!(!state.set_mic_muted(true));
    assert!(state.mic_muted);
    let generation = state.begin_start().ok().unwrap();
    assert!(state.set_mic_muted(false));
    state.set_idle(generation);
    assert!(!state.set_mic_muted(true));
}

#[test]
fn reports_from_an_old_generation_are_ignored() {
    let mut state = ControllerState::new();
    let generation = state.begin_start().ok().unwrap();
    state.set_running(RecorderState::Recording, generation + 1);
    assert_eq!(state.phase, ControllerPhase::Starting);
    state.set_idle(generation + 1);
    assert_eq!(state.phase, ControllerPhase::Starting);
}

#[test]
fn the_worker_refuses_redundant_pause_and_resume() {
    assert!(worker_pause_allowed(false).is_ok());
    assert_eq!(
        worker_pause_allowed(true).err().map(|error| error.message),
        Some("Cannot pause: recorder is paused".to_string())
    );
    assert!(worker_resume_allowed(true).is_ok());
    assert_eq!(
        worker_resume_allowed(false).err().map(|error| error.code),
        Some("INVALID_STATE")
    );
}

#[test]
fn a_closed_window_after_the_start_keeps_the_recording() {
    let SourceClosed::KeepRecording(error) = source_closed(true, false) else {
        panic!("a started window recording survives its window");
    };
    assert_eq!(error.code, "TARGET_CLOSED");
    assert_eq!(error.message, "The recorded window was closed");
    let SourceClosed::Fail(error) = source_closed(true, true) else {
        panic!("a window that closes before the start fails it");
    };
    assert_eq!(error.message, "The window to record was closed");
    let SourceClosed::Fail(error) = source_closed(false, false) else {
        panic!("a lost display fails the recording");
    };
    assert_eq!(error.code, "CAPTURE_ERROR");
    assert_eq!(error.message, "The captured display was disconnected");
}
