use assistant_core::dialogue::{parse_duration, DialogueKind, DialogueManager, SpokenDuration, TimeUnit};

#[test]
fn timer_slot_is_prompted_then_filled() {
    let mut dm = DialogueManager::new();
    let first = dm.process_user_input("s1", "set a timer", 1_000);
    assert!(first.needs_more_input);
    assert_eq!(first.text, "How long should the timer be?");
    let second = dm.process_user_input("s1", "5 minutes", 2_000);
    assert!(!second.needs_more_input);
    assert_eq!(second.text, "Timer set for 5 minutes");
}

#[test]
fn complete_utterance_needs_no_prompt() {
    let mut dm = DialogueManager::new();
    let r = dm.process_user_input("s1", "set a timer for 10 seconds called tea", 1_000);
    assert!(!r.needs_more_input);
    assert_eq!(r.text, "Timer set for 10 seconds: tea");
    let r = dm.process_user_input("s2", "what's the weather in San Francisco", 1_000);
    assert!(!r.needs_more_input);
    assert_eq!(r.text, "Checking the weather in San Francisco");
}

#[test]
fn bad_answer_reprompts_same_slot() {
    let mut dm = DialogueManager::new();
    assert!(dm.process_user_input("s", "start a timer", 0).needs_more_input);
    let r = dm.process_user_input("s", "soon", 10);
    assert!(r.needs_more_input);
    assert_eq!(r.text, "Sorry, I didn't understand. How long should the timer be?");
    let r = dm.process_user_input("s", "1 hour", 20);
    assert!(!r.needs_more_input);
    assert_eq!(r.text, "Timer set for 1 hour");
}

#[test]
fn weather_location_slot_takes_free_text() {
    let mut dm = DialogueManager::new();
    let r = dm.process_user_input("w", "how is the weather", 0);
    assert!(r.needs_more_input);
    assert_eq!(r.text, "Which location do you want the weather for?");
    let r = dm.process_user_input("w", "  Lisbon ", 5);
    assert!(!r.needs_more_input);
    assert_eq!(r.text, "Checking the weather in Lisbon");
}

#[test]
fn unrelated_utterance_is_not_understood() {
    let mut dm = DialogueManager::new();
    let r = dm.process_user_input("x", "sing a song", 0);
    assert!(!r.needs_more_input);
    assert_eq!(r.text, "I didn't understand that. Can you try again?");
}

#[test]
fn expired_session_is_removed_by_cleanup() {
    let timeout = 300_000u64;
    let now = 10_000_000u64;
    let mut dm = DialogueManager::new();
    dm.process_user_input("old", "set a timer", now - 1);
    assert!(dm.set_last_activity("old", now - 2 * timeout));
    dm.cleanup_expired_sessions(now);
    assert!(dm.session("old").is_none());
    assert_eq!(dm.session_count(), 0);
}

#[test]
fn expired_session_forgets_open_intent() {
    let mut dm = DialogueManager::new().with_session_timeout(1_000);
    assert!(dm.process_user_input("s", "set a timer", 0).needs_more_input);
    // After the timeout the session starts over: "5 minutes" alone names no intent.
    let r = dm.process_user_input("s", "5 minutes", 5_000);
    assert!(!r.needs_more_input);
    assert_eq!(r.text, "I didn't understand that. Can you try again?");
}

#[test]
fn ceiling_evicts_least_recent_session() {
    let mut dm = DialogueManager::new().with_max_sessions(2);
    dm.process_user_input("a", "hello", 100);
    dm.process_user_input("b", "hello", 200);
    dm.process_user_input("a", "hello again", 300);
    dm.process_user_input("c", "hello", 400);
    assert_eq!(dm.session_count(), 2);
    assert!(dm.session("b").is_none());
    assert!(dm.session("a").is_some());
    assert!(dm.session("c").is_some());
    dm.cleanup_expired_sessions(400);
    assert!(dm.session_count() <= 2);
}

#[test]
fn history_keeps_last_ten_turns() {
    let mut dm = DialogueManager::new();
    for i in 0..12u64 {
        dm.process_user_input("h", &format!("message {}", i), i);
    }
    let s = dm.session("h").unwrap();
    assert_eq!(s.history.len(), 10);
    assert_eq!(s.history[0].user, "message 2");
    assert_eq!(s.turn_count, 12);
    assert_eq!(s.last_activity, 11);
}

#[test]
fn spoken_durations_parse() {
    assert_eq!(parse_duration("5 minutes"), Some(SpokenDuration { amount: 5, unit: TimeUnit::Minute }));
    assert_eq!(parse_duration("30 Seconds"), Some(SpokenDuration { amount: 30, unit: TimeUnit::Second }));
    assert_eq!(parse_duration("for 2 hours"), Some(SpokenDuration { amount: 2, unit: TimeUnit::Hour }));
    assert_eq!(parse_duration("five minutes"), None);
    assert_eq!(parse_duration("10"), None);
}

#[test]
fn completed_intents_update_context() {
    let mut dm = DialogueManager::new();
    dm.process_user_input("c", "weather in Lisbon", 0);
    dm.process_user_input("c", "set a timer", 10);
    dm.process_user_input("c", "2 minutes", 20);
    let s = dm.session("c").unwrap();
    assert_eq!(s.location, Some("Lisbon".to_string()));
    assert_eq!(s.topics, vec![DialogueKind::Weather, DialogueKind::Timer]);
    assert_eq!(s.language, "en");
    assert!(s.active.is_none());
}

#[test]
fn completed_intent_is_handed_back_ready_to_run() {
    let mut dm = DialogueManager::new();
    let first = dm.process_user_input("r", "set a timer", 0);
    assert!(first.completed.is_none());
    let second = dm.process_user_input("r", "5 minutes", 1);
    let done = second.completed.expect("the timer is complete");
    assert!(matches!(done.to_intent(), assistant_core::engine::Intent::Timer { duration_secs: 300 }));
    let w = dm.process_user_input("r", "weather in Oslo", 2).completed.unwrap();
    match w.to_intent() {
        assistant_core::engine::Intent::Weather { location } => assert_eq!(location, Some("Oslo".to_string())),
        _ => panic!("expected weather"),
    }
}
