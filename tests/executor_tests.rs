use assistant_core::engine::{Intent, SystemAction};
use assistant_core::enhanced::{EnhancedExecutor, Task};

#[test]
fn test_app_aliases() {
    let executor = EnhancedExecutor::new();
    assert_eq!(executor.alias("chrome"), Some("Google Chrome".to_string()));
    assert_eq!(executor.alias("vscode"), Some("Visual Studio Code".to_string()));
    assert_eq!(executor.alias("terminal"), Some("Terminal".to_string()));
}

#[test]
fn test_timer_execution() {
    let executor = EnhancedExecutor::new();
    let intent = Intent::Timer { duration_secs: 5 };
    match executor.plan(&intent) {
        Task::Timer(secs) => {
            assert_eq!(secs, 5);
            assert!(EnhancedExecutor::timer_response(secs).contains("Timer set for 5 seconds"));
        }
        _ => panic!("expected a timer"),
    }
}

#[test]
fn test_weather_execution() {
    let executor = EnhancedExecutor::new();
    let intent = Intent::Unknown { text: "what's the weather in New York".to_string() };
    match executor.plan(&intent) {
        Task::Weather(location) => {
            assert_eq!(location, Some("New York".to_string()));
            let response = executor.weather_response(&location);
            assert!(response.contains("weather") || response.contains("New York"));
        }
        _ => panic!("expected weather"),
    }
}

#[test]
fn test_app_launch_execution() {
    let executor = EnhancedExecutor::new();
    let intent = Intent::Unknown { text: "open chrome".to_string() };
    match executor.plan(&intent) {
        Task::LaunchApp(app) => assert_eq!(app, "Google Chrome"),
        _ => panic!("expected an app launch"),
    }
}

#[test]
fn alias_lookup_lowercases_the_name() {
    let executor = EnhancedExecutor::new();
    assert_eq!(executor.resolve_app("Spotify"), "Spotify");
    assert_eq!(executor.resolve_app("VLC"), "VLC");
    assert_eq!(executor.resolve_app("CHROME"), "Google Chrome");
    assert_eq!(executor.resolve_app("Blender"), "Blender");
}

#[test]
fn free_text_classification() {
    let executor = EnhancedExecutor::new();
    assert!(matches!(
        executor.plan(&Intent::Unknown { text: "turn the volume down".into() }),
        Task::SystemControl(ref a) if a == "volume_down"
    ));
    assert!(matches!(
        executor.plan(&Intent::Unknown { text: "please mute".into() }),
        Task::SystemControl(ref a) if a == "mute"
    ));
    assert!(matches!(
        executor.plan(&Intent::Unknown { text: "Who wrote Hamlet".into() }),
        Task::Query(ref q) if q == "Who wrote Hamlet"
    ));
    assert!(matches!(
        executor.plan(&Intent::Unknown { text: "sing".into() }),
        Task::Reply(ref m) if m.starts_with("I'm not sure how to help")
    ));
    assert!(matches!(
        executor.plan(&Intent::SystemControl { action: SystemAction::Restart }),
        Task::SystemControl(ref a) if a == "restart"
    ));
}

#[test]
fn responses_are_worded_exactly() {
    let executor = EnhancedExecutor::new().with_weather_api_key("k".to_string());
    assert_eq!(
        executor.weather_response(&None),
        "The weather in your location is partly cloudy with a temperature of 72 degrees Fahrenheit"
    );
    assert_eq!(EnhancedExecutor::launch_response("Zoom", &Ok(())), "Launched Zoom");
    assert_eq!(
        EnhancedExecutor::launch_response("Zoom", &Err("not installed".to_string())),
        "Sorry, I couldn't launch Zoom. not installed"
    );
    assert_eq!(EnhancedExecutor::simulated_action_response("mute"), "Audio muted (simulated)");
    assert_eq!(
        EnhancedExecutor::simulated_action_response("sleep"),
        "System action 'sleep' executed (simulated)"
    );
}

#[test]
fn knowledge_answers() {
    let executor = EnhancedExecutor::new();
    assert!(executor.get_knowledge_response("What TIME is it").starts_with("The current time is "));
    assert!(executor.get_knowledge_response("what's the date").starts_with("Today is "));
    assert!(executor.get_knowledge_response("I need HELP").starts_with("I can help you"));
    assert_eq!(
        executor.get_knowledge_response("colour of mars"),
        "I'm not sure about 'colour of mars'. You could try asking about the time, date, weather, or ask me to launch an app or set a timer."
    );
}
