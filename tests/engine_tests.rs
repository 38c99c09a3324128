use assistant_core::engine::{
    porcupine_line_has_detection, EngineError, EngineEvent, ExecutionPlan, Intent, MockAsr,
    SimpleExecutor, SimpleNlu,
};

#[test]
fn detects_generic_detected() {
    assert!(porcupine_line_has_detection("[0.123] detected"));
}

#[test]
fn detects_phrase_variants() {
    assert!(porcupine_line_has_detection("Wake word detected"));
    assert!(porcupine_line_has_detection("KEYWORD DETECTED (index=0)"));
}

#[test]
fn ignores_non_detection() {
    assert!(!porcupine_line_has_detection("listening..."));
    assert!(!porcupine_line_has_detection("noise level: -36dB"));
}

#[test]
fn simple_nlu_reads_minutes_and_seconds() {
    let nlu = SimpleNlu;
    match nlu.parse_intent("set a timer for 2 minutes") {
        Intent::Timer { duration_secs } => assert_eq!(duration_secs, 120),
        _ => panic!("expected a timer"),
    }
    match nlu.parse_intent("remind me in 45 seconds") {
        Intent::Timer { duration_secs } => assert_eq!(duration_secs, 45),
        _ => panic!("expected a timer"),
    }
    match nlu.parse_intent("start a timer") {
        Intent::Timer { duration_secs } => assert_eq!(duration_secs, 10),
        _ => panic!("expected a timer"),
    }
    match nlu.parse_intent("tell me a joke") {
        Intent::Unknown { text } => assert_eq!(text, "tell me a joke"),
        _ => panic!("expected unknown"),
    }
}

#[test]
fn simple_nlu_lowercases_before_matching() {
    // Upper-case keywords only match once the text is lower-cased.
    match SimpleNlu.parse_intent("SET A TIMER FOR 3 MINUTES") {
        Intent::Timer { duration_secs } => assert_eq!(duration_secs, 180),
        _ => panic!("expected a timer"),
    }
}

#[test]
fn simple_nlu_saturates_huge_minutes() {
    match SimpleNlu.parse_intent("timer 18446744073709551615 minutes") {
        Intent::Timer { duration_secs } => assert_eq!(duration_secs, u64::MAX),
        _ => panic!("expected a timer"),
    }
}

fn texts(events: &[EngineEvent]) -> Vec<String> {
    events
        .iter()
        .map(|e| match e {
            EngineEvent::ExecutionStarted(s) => format!("started:{}", s),
            EngineEvent::ExecutionFinished(s) => format!("finished:{}", s),
            EngineEvent::Notification(s) => format!("note:{}", s),
            _ => "other".to_string(),
        })
        .collect()
}

#[test]
fn simple_executor_plans_timer() {
    let plan: ExecutionPlan = SimpleExecutor::plan(&Intent::Timer { duration_secs: 300 });
    assert_eq!(plan.response, "Timer set for 300 seconds");
    assert_eq!(texts(&plan.immediate), vec!["started:timer"]);
    assert_eq!(plan.delay_secs, Some(300));
    assert_eq!(texts(&plan.delayed), vec!["note:Timer done", "finished:timer"]);
}

#[test]
fn simple_executor_acknowledges_other_intents() {
    let plan = SimpleExecutor::plan(&Intent::Unknown { text: "hi".to_string() });
    assert_eq!(plan.response, "Okay.");
    assert!(plan.immediate.is_empty());
    assert!(plan.delayed.is_empty());
    assert_eq!(plan.delay_secs, None);
}

#[test]
fn engine_error_descriptions() {
    assert_eq!(EngineError::Audio("x".to_string()).describe(), "audio error: x");
    assert_eq!(EngineError::Wake("w".to_string()).describe(), "wake error: w");
    assert_eq!(EngineError::Asr("a".to_string()).describe(), "asr error: a");
    assert_eq!(EngineError::Tts("t".to_string()).describe(), "tts error: t");
}

#[test]
fn mock_asr_partials_grow() {
    assert_eq!(MockAsr::partials(), vec!["hello", "hello there", "hello there assistant"]);
}

#[test]
fn events_from_one_producer_arrive_in_order() {
    let (tx, mut rx) = tokio::sync::mpsc::channel::<EngineEvent>(32);
    tx.try_send(EngineEvent::WakeDetected).unwrap();
    tx.try_send(EngineEvent::FinalTranscript("set a timer".to_string())).unwrap();
    tx.try_send(EngineEvent::ExecutionStarted("timer".to_string())).unwrap();
    tx.try_send(EngineEvent::TtsStarted).unwrap();
    tx.try_send(EngineEvent::TtsFinished).unwrap();
    drop(tx);
    let mut seen = Vec::new();
    while let Ok(e) = rx.try_recv() {
        seen.push(match e {
            EngineEvent::WakeDetected => "wake",
            EngineEvent::FinalTranscript(_) => "final",
            EngineEvent::ExecutionStarted(_) => "started",
            EngineEvent::TtsStarted => "tts-start",
            EngineEvent::TtsFinished => "tts-end",
            _ => "other",
        });
    }
    assert_eq!(seen, vec!["wake", "final", "started", "tts-start", "tts-end"]);
}
