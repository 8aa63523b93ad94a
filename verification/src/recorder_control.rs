//! The screen recorder's controller: which requests are allowed in which
//! phase, and the generation that keeps a finished recording's worker from
//! touching the next one.
use vstd::prelude::*;
use crate::recorder_types::{RecorderError, RecorderState};
use crate::text::push_str;

verus! {

/// Where the controller is between requests.
#[derive(Clone, Copy, Debug, PartialEq, Eq, Structural)]
pub enum ControllerPhase {
    Idle,
    Starting,
    Running,
    Stopping,
}

/// The controller's state, without the worker's channels.
#[derive(Clone, Copy, Debug, PartialEq, Eq, Structural)]
pub struct ControllerState {
    pub phase: ControllerPhase,
    pub state: RecorderState,
    pub has_worker: bool,
    pub mic_muted: bool,
    pub generation: u64,
}

/// "Cannot `operation`: recorder is `state`".
pub open spec fn refusal(operation: Seq<char>, state: RecorderState) -> Seq<char> {
    "Cannot "@ + operation + ": recorder is "@ + state.spec_name()
}

fn refused(operation: &str, state: RecorderState) -> (error: RecorderError)
    ensures
        error.code@ == "INVALID_STATE"@,
        error.message@ == refusal(operation@, state),
{
    let mut message = String::new();
    push_str(&mut message, "Cannot ");
    push_str(&mut message, operation);
    push_str(&mut message, ": recorder is ");
    push_str(&mut message, state.as_str());
    RecorderError { code: "INVALID_STATE", message }
}

pub open spec fn is_active(state: ControllerState) -> bool {
    state.phase == ControllerPhase::Running && (state.state == RecorderState::Recording
        || state.state == RecorderState::Paused)
}

impl ControllerState {
    pub fn new() -> (controller: Self)
        ensures
            controller == (ControllerState {
                phase: ControllerPhase::Idle,
                state: RecorderState::Idle,
                has_worker: false,
                mic_muted: false,
                generation: 0,
            }),
    {
        ControllerState {
            phase: ControllerPhase::Idle,
            state: RecorderState::Idle,
            has_worker: false,
            mic_muted: false,
            generation: 0,
        }
    }

    /// Starts a recording in a new generation; only an idle recorder starts.
    pub fn begin_start(&mut self) -> (generation: Result<u64, RecorderError>)
        ensures
            match generation {
                Ok(g) => old(self).phase == ControllerPhase::Idle && g == (if old(self).generation
                    == u64::MAX {
                    0
                } else {
                    old(self).generation + 1
                }) && *final(self) == (ControllerState {
                    phase: ControllerPhase::Starting,
                    state: RecorderState::Idle,
                    has_worker: true,
                    mic_muted: old(self).mic_muted,
                    generation: g,
                }),
                Err(error) => old(self).phase != ControllerPhase::Idle && *final(self) == *old(self)
                    && error.code@ == "INVALID_STATE"@ && error.message@ == refusal(
                    "start"@,
                    old(self).state,
                ),
            },
    {
        if self.phase != ControllerPhase::Idle {
            return Err(refused("start", self.state));
        }
        self.generation = if self.generation == u64::MAX { 0 } else { self.generation + 1 };
        self.phase = ControllerPhase::Starting;
        self.state = RecorderState::Idle;
        self.has_worker = true;
        Ok(self.generation)
    }

    /// Whether `pause` (from recording) or `resume` (from paused) may go to
    /// the worker.
    pub fn check_command(&self, required: RecorderState, operation: &str) -> (allowed: Result<
        (),
        RecorderError,
    >)
        ensures
            match allowed {
                Ok(()) => self.phase == ControllerPhase::Running && self.state == required
                    && self.has_worker,
                Err(error) => if self.phase != ControllerPhase::Running || self.state != required {
                    error.code@ == "INVALID_STATE"@ && error.message@ == refusal(operation@, self.state)
                } else {
                    !self.has_worker && error.code@ == "CAPTURE_ERROR"@ && error.message@
                        == "Recorder worker is unavailable"@
                },
            },
    {
        if self.phase != ControllerPhase::Running || self.state != required {
            return Err(refused(operation, self.state));
        }
        if !self.has_worker {
            return Err(RecorderError::capture("Recorder worker is unavailable"));
        }
        Ok(())
    }

    /// Whether a device change may go to the worker: while recording or paused.
    pub fn check_active(&self, operation: &str) -> (allowed: Result<(), RecorderError>)
        ensures
            match allowed {
                Ok(()) => is_active(*self) && self.has_worker,
                Err(error) => if !is_active(*self) {
                    error.code@ == "INVALID_STATE"@ && error.message@ == refusal(operation@, self.state)
                } else {
                    !self.has_worker && error.code@ == "CAPTURE_ERROR"@ && error.message@
                        == "Recorder worker is unavailable"@
                },
            },
    {
        if !(self.phase == ControllerPhase::Running && (self.state == RecorderState::Recording
            || self.state == RecorderState::Paused)) {
            return Err(refused(operation, self.state));
        }
        if !self.has_worker {
            return Err(RecorderError::capture("Recorder worker is unavailable"));
        }
        Ok(())
    }

    /// Moves a recording or paused recorder to stopping.
    pub fn begin_stop(&mut self) -> (stopping: Result<(), RecorderError>)
        ensures
            match stopping {
                Ok(()) => is_active(*old(self)) && old(self).has_worker && *final(self) == (
                ControllerState {
                    phase: ControllerPhase::Stopping,
                    state: RecorderState::Idle,
                    ..*old(self)
                }),
                Err(error) => *final(self) == *old(self) && (if !is_active(*old(self)) {
                    error.code@ == "INVALID_STATE"@ && error.message@ == refusal("stop"@, old(self).state)
                } else {
                    !old(self).has_worker && error.code@ == "CAPTURE_ERROR"@ && error.message@
                        == "Recorder worker is unavailable"@
                }),
            },
    {
        self.check_active("stop")?;
        self.phase = ControllerPhase::Stopping;
        self.state = RecorderState::Idle;
        Ok(())
    }

    /// The worker could not be reached: back to idle without it.
    pub fn worker_lost(&mut self)
        ensures
            final(self).phase == ControllerPhase::Idle,
            final(self).state == RecorderState::Idle,
            !final(self).has_worker,
            final(self).generation == old(self).generation,
            final(self).mic_muted == old(self).mic_muted,
    {
        self.phase = ControllerPhase::Idle;
        self.state = RecorderState::Idle;
        self.has_worker = false;
    }

    /// Remembers the microphone mute; says whether to tell a running worker.
    pub fn set_mic_muted(&mut self, muted: bool) -> (forward: bool)
        ensures
            *final(self) == (ControllerState { mic_muted: muted, ..*old(self) }),
            forward == ((old(self).phase == ControllerPhase::Starting || old(self).phase
                == ControllerPhase::Running) && old(self).has_worker),
    {
        self.mic_muted = muted;
        (self.phase == ControllerPhase::Starting || self.phase == ControllerPhase::Running)
            && self.has_worker
    }

    /// The worker of `generation` reports a running state.
    pub fn set_running(&mut self, state: RecorderState, generation: u64)
        ensures
            old(self).generation == generation ==> *final(self) == (ControllerState {
                phase: ControllerPhase::Running,
                state,
                ..*old(self)
            }),
            old(self).generation != generation ==> *final(self) == *old(self),
    {
        if self.generation != generation {
            return;
        }
        self.phase = ControllerPhase::Running;
        self.state = state;
    }

    /// The worker of `generation` has finished.
    pub fn set_idle(&mut self, generation: u64)
        ensures
            old(self).generation == generation ==> *final(self) == (ControllerState {
                phase: ControllerPhase::Idle,
                state: RecorderState::Idle,
                has_worker: false,
                ..*old(self)
            }),
            old(self).generation != generation ==> *final(self) == *old(self),
    {
        if self.generation != generation {
            return;
        }
        self.phase = ControllerPhase::Idle;
        self.state = RecorderState::Idle;
        self.has_worker = false;
    }

    /// After the worker of `generation` died: when it is still the current,
    /// not yet idle recording, the controller goes idle and the failure is
    /// reported once, as a start failure before the recording started and as
    /// a capture failure after. `None` when there is nothing to report.
    pub fn recover_worker_panic(&mut self, generation: u64, started: bool) -> (report: Option<
        RecorderError,
    >)
        ensures
            (old(self).generation != generation || old(self).phase == ControllerPhase::Idle) ==> (
            report is None && *final(self) == *old(self)),
            (old(self).generation == generation && old(self).phase != ControllerPhase::Idle) ==> (
            report matches Some(error) && error.message@ == "Recorder worker terminated unexpectedly"@
                && error.code@ == (if started {
                "CAPTURE_ERROR"@
            } else {
                "START_FAILED"@
            }) && *final(self) == (ControllerState {
                phase: ControllerPhase::Idle,
                state: RecorderState::Idle,
                has_worker: false,
                ..*old(self)
            })),
    {
        if self.generation != generation || self.phase == ControllerPhase::Idle {
            return None;
        }
        self.phase = ControllerPhase::Idle;
        self.state = RecorderState::Idle;
        self.has_worker = false;
        if started {
            Some(RecorderError::capture("Recorder worker terminated unexpectedly"))
        } else {
            Some(RecorderError::start("Recorder worker terminated unexpectedly"))
        }
    }
}

/// Where a worker failure goes: to the request still waiting for the start,
/// else to the failure channel of the running recording; each at most once.
pub enum FailureRoute<S, F> {
    Start(S),
    Failure(F),
    Dropped,
}

pub fn report_worker_failure<S, F>(start_sender: &mut Option<S>, failure_sender: &mut Option<F>) -> (route:
    FailureRoute<S, F>)
    ensures
        match route {
            FailureRoute::Start(sender) => *old(start_sender) == Some(sender) && final(start_sender).is_none()
                && *final(failure_sender) == *old(failure_sender),
            FailureRoute::Failure(sender) => old(start_sender).is_none() && *old(failure_sender) == Some(
                sender,
            ) && final(failure_sender).is_none() && final(start_sender).is_none(),
            FailureRoute::Dropped => old(start_sender).is_none() && old(failure_sender).is_none()
                && final(start_sender).is_none() && final(failure_sender).is_none(),
        },
{
    if let Some(sender) = start_sender.take() {
        return FailureRoute::Start(sender);
    }
    if let Some(sender) = failure_sender.take() {
        return FailureRoute::Failure(sender);
    }
    FailureRoute::Dropped
}

/// A worker asked to pause while paused, or to resume while recording,
/// refuses.
pub fn worker_pause_allowed(paused: bool) -> (allowed: Result<(), RecorderError>)
    ensures
        allowed is Ok <==> !paused,
        allowed matches Err(error) ==> error.code@ == "INVALID_STATE"@ && error.message@
            == "Cannot pause: recorder is paused"@,
{
    if paused {
        return Err(RecorderError::invalid_state("Cannot pause: recorder is paused"));
    }
    Ok(())
}

pub fn worker_resume_allowed(paused: bool) -> (allowed: Result<(), RecorderError>)
    ensures
        allowed is Ok <==> paused,
        allowed matches Err(error) ==> error.code@ == "INVALID_STATE"@ && error.message@
            == "Cannot resume: recorder is recording"@,
{
    if !paused {
        return Err(RecorderError::invalid_state("Cannot resume: recorder is recording"));
    }
    Ok(())
}

/// What a recording does when its frame source closes.
pub enum SourceClosed {
    /// A recorded window closed after the start: the app is told once, and
    /// the recording stays alive so that its stop keeps what was captured.
    KeepRecording(RecorderError),
    /// The recording fails with this error.
    Fail(RecorderError),
}

pub fn source_closed(records_window: bool, awaiting_start: bool) -> (outcome: SourceClosed)
    ensures
        records_window && !awaiting_start ==> (outcome matches SourceClosed::KeepRecording(error)
            && error.code@ == "TARGET_CLOSED"@ && error.message@ == "The recorded window was closed"@),
        records_window && awaiting_start ==> (outcome matches SourceClosed::Fail(error) && error.code@
            == "CAPTURE_ERROR"@ && error.message@ == "The window to record was closed"@),
        !records_window ==> (outcome matches SourceClosed::Fail(error) && error.code@
            == "CAPTURE_ERROR"@ && error.message@ == "The captured display was disconnected"@),
{
    if records_window && !awaiting_start {
        return SourceClosed::KeepRecording(RecorderError::target_closed("The recorded window was closed"));
    }
    if records_window {
        SourceClosed::Fail(RecorderError::capture("The window to record was closed"))
    } else {
        SourceClosed::Fail(RecorderError::capture("The captured display was disconnected"))
    }
}

} // verus!
