//! The Session Orchestrator as a state machine: each stage's outcome decides the event to
//! publish and the next thing to do. The runner performs the waiting and hands the outcome
//! back; a failed stage ends the run.
use crate::engine::{EngineError, EngineEvent, Intent};
use crate::text::{chars_of, string_of};
use vstd::prelude::*;

verus! {

/// Where a run stands.
#[derive(Clone, Copy, Debug, PartialEq, Eq, Structural)]
pub enum Stage {
    AwaitingWake,
    AwaitingTranscript,
    AwaitingIntent,
    AwaitingExecution,
    AwaitingSpeech,
    Done,
    Failed,
}

/// What the stage that was waited on produced.
pub enum StageOutcome {
    Woke(Result<(), EngineError>),
    Transcribed(Result<String, EngineError>),
    Resolved(Intent),
    Executed(Result<String, EngineError>),
    Spoke(Result<(), EngineError>),
}

/// What the runner does next.
pub enum Action {
    WaitForWake,
    Transcribe,
    ResolveIntent(String),
    Execute(Intent),
    Speak(String),
    Finish,
    Abort(EngineError),
}

/// An event to publish, then an action to take.
pub struct Step {
    pub emit: Option<EngineEvent>,
    pub action: Action,
}

/// The stage that each outcome answers.
pub open spec fn answers(outcome: StageOutcome) -> Stage {
    match outcome {
        StageOutcome::Woke(_) => Stage::AwaitingWake,
        StageOutcome::Transcribed(_) => Stage::AwaitingTranscript,
        StageOutcome::Resolved(_) => Stage::AwaitingIntent,
        StageOutcome::Executed(_) => Stage::AwaitingExecution,
        StageOutcome::Spoke(_) => Stage::AwaitingSpeech,
    }
}

/// One pass through wake, transcription, intent, execution and speech.
pub struct SessionRun {
    stage: Stage,
}

impl SessionRun {
    pub closed spec fn stage(&self) -> Stage {
        self.stage
    }

    /// A run that waits for the wake signal first.
    pub fn new() -> (r: (SessionRun, Action))
        ensures
            r.0.stage() == Stage::AwaitingWake,
            r.1 is WaitForWake,
    {
        (SessionRun { stage: Stage::AwaitingWake }, Action::WaitForWake)
    }

    pub fn current_stage(&self) -> (r: Stage)
        ensures
            r == self.stage(),
    {
        self.stage
    }

    /// Takes the outcome of the stage being waited on. A success publishes the stage's
    /// milestone event and moves on; a failure aborts with that error. An outcome that does
    /// not answer the current stage aborts the run.
    pub fn advance(&mut self, outcome: StageOutcome) -> (r: Step)
        ensures
            answers(outcome) != old(self).stage() ==> (final(self).stage() == Stage::Failed
                && r.emit is None && r.action is Abort),
            answers(outcome) == old(self).stage() ==> match outcome {
                StageOutcome::Woke(Ok(())) => final(self).stage() == Stage::AwaitingTranscript
                    && r.emit == Some(EngineEvent::WakeDetected) && r.action is Transcribe,
                StageOutcome::Transcribed(Ok(text)) => final(self).stage()
                    == Stage::AwaitingIntent && (r.emit matches Some(EngineEvent::FinalTranscript(t)) && t@ == text@)
                    && (r.action matches Action::ResolveIntent(t) && t@ == text@),
                StageOutcome::Resolved(intent) => final(self).stage()
                    == Stage::AwaitingExecution && r.emit == Some(
                    EngineEvent::IntentRecognized(intent),
                ) && r.action == Action::Execute(intent),
                StageOutcome::Executed(Ok(text)) => final(self).stage() == Stage::AwaitingSpeech
                    && r.emit is None && r.action == Action::Speak(text),
                StageOutcome::Spoke(Ok(())) => final(self).stage() == Stage::Done && r.emit is None
                    && r.action is Finish,
                StageOutcome::Woke(Err(e)) => final(self).stage() == Stage::Failed && r.emit is None
                    && r.action == Action::Abort(e),
                StageOutcome::Transcribed(Err(e)) => final(self).stage() == Stage::Failed
                    && r.emit is None && r.action == Action::Abort(e),
                StageOutcome::Executed(Err(e)) => final(self).stage() == Stage::Failed
                    && r.emit is None && r.action == Action::Abort(e),
                StageOutcome::Spoke(Err(e)) => final(self).stage() == Stage::Failed && r.emit is None
                    && r.action == Action::Abort(e),
            },
    {
        let out_of_order = match (&outcome, self.stage) {
            (StageOutcome::Woke(_), Stage::AwaitingWake) => false,
            (StageOutcome::Transcribed(_), Stage::AwaitingTranscript) => false,
            (StageOutcome::Resolved(_), Stage::AwaitingIntent) => false,
            (StageOutcome::Executed(_), Stage::AwaitingExecution) => false,
            (StageOutcome::Spoke(_), Stage::AwaitingSpeech) => false,
            _ => true,
        };
        if out_of_order {
            self.stage = Stage::Failed;
            return Step {
                emit: None,
                action: Action::Abort(
                    EngineError::Wake(string_of(&chars_of("pipeline stage out of order"))),
                ),
            };
        }
        match outcome {
            StageOutcome::Woke(Ok(())) => {
                self.stage = Stage::AwaitingTranscript;
                Step { emit: Some(EngineEvent::WakeDetected), action: Action::Transcribe }
            },
            StageOutcome::Transcribed(Ok(text)) => {
                self.stage = Stage::AwaitingIntent;
                let copy = text.clone();
                Step {
                    emit: Some(EngineEvent::FinalTranscript(text)),
                    action: Action::ResolveIntent(copy),
                }
            },
            StageOutcome::Resolved(intent) => {
                self.stage = Stage::AwaitingExecution;
                let copy = intent.copy();
                Step {
                    emit: Some(EngineEvent::IntentRecognized(intent)),
                    action: Action::Execute(copy),
                }
            },
            StageOutcome::Executed(Ok(text)) => {
                self.stage = Stage::AwaitingSpeech;
                Step { emit: None, action: Action::Speak(text) }
            },
            StageOutcome::Spoke(Ok(())) => {
                self.stage = Stage::Done;
                Step { emit: None, action: Action::Finish }
            },
            StageOutcome::Woke(Err(e)) | StageOutcome::Transcribed(Err(e)) | StageOutcome::Executed(
                Err(e),
            ) | StageOutcome::Spoke(Err(e)) => {
                self.stage = Stage::Failed;
                Step { emit: None, action: Action::Abort(e) }
            },
        }
    }
}

} // verus!
