use assistant_core::engine::{EngineError, EngineEvent, Intent};
use assistant_core::session::{Action, SessionRun, Stage, StageOutcome};

#[test]
fn full_run_walks_every_stage() {
    let (mut run, first) = SessionRun::new();
    assert!(matches!(first, Action::WaitForWake));
    let s = run.advance(StageOutcome::Woke(Ok(())));
    assert!(matches!(s.emit, Some(EngineEvent::WakeDetected)));
    assert!(matches!(s.action, Action::Transcribe));
    let s = run.advance(StageOutcome::Transcribed(Ok("set a timer for 5 minutes".to_string())));
    assert!(matches!(s.emit, Some(EngineEvent::FinalTranscript(ref t)) if t == "set a timer for 5 minutes"));
    assert!(matches!(s.action, Action::ResolveIntent(ref t) if t == "set a timer for 5 minutes"));
    let s = run.advance(StageOutcome::Resolved(Intent::Timer { duration_secs: 300 }));
    assert!(matches!(s.emit, Some(EngineEvent::IntentRecognized(Intent::Timer { duration_secs: 300 }))));
    assert!(matches!(s.action, Action::Execute(Intent::Timer { duration_secs: 300 })));
    let s = run.advance(StageOutcome::Executed(Ok("Timer set for 300 seconds".to_string())));
    assert!(s.emit.is_none());
    assert!(matches!(s.action, Action::Speak(ref t) if t == "Timer set for 300 seconds"));
    let s = run.advance(StageOutcome::Spoke(Ok(())));
    assert!(matches!(s.action, Action::Finish));
    assert_eq!(run.current_stage(), Stage::Done);
}

#[test]
fn stage_failure_aborts_the_run() {
    let (mut run, _) = SessionRun::new();
    run.advance(StageOutcome::Woke(Ok(())));
    let s = run.advance(StageOutcome::Transcribed(Err(EngineError::Asr("mic".to_string()))));
    assert!(s.emit.is_none());
    assert!(matches!(s.action, Action::Abort(EngineError::Asr(ref m)) if m == "mic"));
    assert_eq!(run.current_stage(), Stage::Failed);
}

#[test]
fn out_of_order_outcome_aborts() {
    let (mut run, _) = SessionRun::new();
    let s = run.advance(StageOutcome::Spoke(Ok(())));
    assert!(matches!(s.action, Action::Abort(_)));
    assert_eq!(run.current_stage(), Stage::Failed);
}
