use assistant_core::engine::{ExecutionPlan, Intent, SimpleExecutor, SystemAction};
use assistant_core::nlu::{EnhancedNlu, Extractor, IntentKind};

fn timer_secs(nlu: &EnhancedNlu, text: &str) -> u64 {
    match nlu.parse_intent(text) {
        Intent::Timer { duration_secs } => duration_secs,
        _ => panic!("Expected Timer intent for: {}", text),
    }
}

#[test]
fn test_timer_intent_recognition() {
    let nlu = EnhancedNlu::new();
    let test_cases = vec![
        ("set a timer for 5 minutes", 300),
        ("remind me in 30 seconds", 30),
        ("timer 2 hours", 7200),
        ("set timer 10", 10),
    ];
    for (text, expected_secs) in test_cases {
        assert_eq!(timer_secs(&nlu, text), expected_secs, "Failed for: {}", text);
    }
}

#[test]
fn test_unknown_intent() {
    let nlu = EnhancedNlu::new();
    for text in ["hello there", "how are you", "random text"] {
        match nlu.parse_intent(text) {
            Intent::Unknown { .. } => {}
            _ => panic!("Expected Unknown intent for: {}", text),
        }
    }
}

#[test]
fn test_parameter_extraction() {
    let params = EnhancedNlu::extract(Some(Extractor::Timer), "set a timer for 5 minutes");
    assert_eq!(params.number, Some("5".to_string()));
    assert_eq!(params.unit, Some("minute".to_string()));

    let params = EnhancedNlu::extract(Some(Extractor::Weather), "what's the weather in New York");
    assert_eq!(params.location, Some("New York".to_string()));

    let params = EnhancedNlu::extract(Some(Extractor::App), "open Chrome");
    assert_eq!(params.app_name, Some("Chrome".to_string()));
}

#[test]
fn duration_units_convert_to_seconds() {
    let nlu = EnhancedNlu::new();
    assert_eq!(timer_secs(&nlu, "set a timer for 5 minutes"), 300);
    assert_eq!(timer_secs(&nlu, "set a timer for 30 seconds"), 30);
    assert_eq!(timer_secs(&nlu, "set a timer for 2 hours"), 7200);
}

#[test]
fn timer_utterance_plans_a_timer_end_to_end() {
    let nlu = EnhancedNlu::new();
    let intent = nlu.parse_intent("set a timer for 5 minutes");
    assert!(matches!(intent, Intent::Timer { duration_secs: 300 }));
    let plan: ExecutionPlan = SimpleExecutor::plan(&intent);
    assert_eq!(plan.response, "Timer set for 300 seconds");
    assert_eq!(plan.delay_secs, Some(300));
    assert!(matches!(&plan.immediate[0], assistant_core::engine::EngineEvent::ExecutionStarted(n) if n == "timer"));
    assert!(matches!(&plan.delayed[0], assistant_core::engine::EngineEvent::Notification(m) if m == "Timer done"));
    assert!(matches!(&plan.delayed[1], assistant_core::engine::EngineEvent::ExecutionFinished(n) if n == "timer"));
}

#[test]
fn highest_confidence_wins() {
    let nlu = EnhancedNlu::new();
    // "open" (90) beats "start" (80).
    match nlu.match_patterns("open the start menu") {
        Some((kind, confidence, _)) => {
            assert_eq!(kind, IntentKind::AppLaunch);
            assert_eq!(confidence, 90);
        }
        None => panic!("expected a match"),
    }
}

#[test]
fn below_threshold_is_unknown() {
    let nlu = EnhancedNlu::new().with_confidence_threshold(95);
    match nlu.parse_intent("set a timer for 5 minutes") {
        Intent::Unknown { text } => assert_eq!(text, "set a timer for 5 minutes"),
        _ => panic!("expected unknown"),
    }
}

#[test]
fn greeting_and_system_control() {
    let nlu = EnhancedNlu::new();
    assert!(matches!(nlu.parse_intent("hey friday"), Intent::Greeting { user_name: None }));
    assert!(matches!(
        nlu.parse_intent("turn volume down"),
        Intent::SystemControl { action: SystemAction::VolumeDown }
    ));
    assert!(matches!(nlu.parse_intent("please unmute"), Intent::SystemControl { action: SystemAction::Unmute }));
}

#[test]
fn query_and_weather_parameters() {
    let nlu = EnhancedNlu::new();
    match nlu.parse_intent("tell me about rust") {
        Intent::Query { question } => assert_eq!(question, "rust"),
        _ => panic!("expected a query"),
    }
    match nlu.parse_intent("what's the weather in Paris") {
        Intent::Weather { location } => assert_eq!(location, Some("Paris".to_string())),
        _ => panic!("expected weather"),
    }
}

#[test]
fn timer_without_unit_defaults_to_ten_seconds() {
    let nlu = EnhancedNlu::new();
    assert_eq!(timer_secs(&nlu, "set timer 45"), 10);
}
