use assistant_core::engine::{EngineEvent, Intent, SimpleExecutor};
use assistant_core::plugin::{
    extract_parameters, matches_pattern, validate_manifest, IntentPattern, ParamValue,
    ParameterDef, Plugin, PluginError, PluginEvent, PluginManager, PluginManifest, PluginResult,
};
use assistant_core::plugin_executor::{
    plugin_response, relay_events, Dispatch, PluginExecutor, PluginExecutorBuilder,
};
use assistant_core::weather::WeatherPlugin;

fn loaded_manager() -> PluginManager<WeatherPlugin> {
    let mut manager = PluginManager::new("/tmp/plugins");
    assert!(manager.load_plugin(WeatherPlugin::new()).is_ok());
    manager
}

#[test]
fn test_plugin_manager() {
    let manager = loaded_manager();
    assert_eq!(manager.list_plugins().len(), 1);
    let result = manager.find_plugin_for_intent("what's the weather like in New York");
    assert!(result.is_some());
    let (plugin_name, intent, _params) = result.unwrap();
    assert_eq!(plugin_name, "weather");
    assert_eq!(intent, "get_weather");
}

#[test]
fn test_weather_plugin_execution() {
    let manager = loaded_manager();
    let params = vec![("location".to_string(), ParamValue::Text("Boston".to_string()))];
    let result = manager.execute_plugin("weather", "get_weather", &params);
    assert!(result.is_ok());
    let plugin_result = result.ok().unwrap();
    assert!(plugin_result.success);
    assert!(plugin_result.message.contains("Boston"));
}

#[test]
fn test_intent_pattern_matching() {
    let pattern = IntentPattern {
        name: "test".to_string(),
        patterns: vec![r"(?i)weather.*in\s+(\w+)".to_string()],
        confidence: 80,
        parameters: vec![],
    };
    assert!(matches_pattern("What's the weather in Boston", &pattern));
    assert!(matches_pattern("weather in NYC", &pattern));
    assert!(!matches_pattern("set a timer", &pattern));
}

#[test]
fn weather_scenario_dispatches_with_location() {
    let manager = loaded_manager();
    let (plugin, intent, params) =
        manager.find_plugin_for_intent("what's the weather like in Boston").unwrap();
    assert_eq!(plugin, "weather");
    assert_eq!(intent, "get_weather");
    assert_eq!(params.len(), 1);
    assert_eq!(params[0].0, "location");
    assert!(matches!(&params[0].1, ParamValue::Text(s) if s == "Boston"));
    let result = manager.execute_plugin(&plugin, &intent, &params).ok().unwrap();
    assert!(result.success);
    assert!(result.message.contains("Boston"));
}

#[test]
fn dispatch_is_repeatable() {
    let manager = loaded_manager();
    let text = "temperature in Oslo please";
    let a = manager.find_plugin_for_intent(text).unwrap();
    let b = manager.find_plugin_for_intent(text).unwrap();
    assert_eq!(a.0, b.0);
    assert_eq!(a.1, b.1);
    assert_eq!(a.2.len(), b.2.len());
    for (x, y) in a.2.iter().zip(b.2.iter()) {
        assert_eq!(x.0, y.0);
        match (&x.1, &y.1) {
            (ParamValue::Text(p), ParamValue::Text(q)) => assert_eq!(p, q),
            (ParamValue::Number(p), ParamValue::Number(q)) => assert_eq!(p, q),
            _ => panic!("different parameter kinds"),
        }
    }
}

#[test]
fn no_plugin_claims_unrelated_text() {
    let manager = loaded_manager();
    assert!(manager.find_plugin_for_intent("set a timer").is_none());
}

#[test]
fn number_and_string_parameters() {
    let ip = IntentPattern {
        name: "remind".to_string(),
        patterns: vec!["remind".to_string()],
        confidence: 70,
        parameters: vec![
            ParameterDef {
                name: "count".to_string(),
                param_type: "number".to_string(),
                required: true,
                description: String::new(),
            },
            ParameterDef {
                name: "target".to_string(),
                param_type: "string".to_string(),
                required: false,
                description: String::new(),
            },
            ParameterDef {
                name: "flag".to_string(),
                param_type: "boolean".to_string(),
                required: false,
                description: String::new(),
            },
        ],
    };
    let params = extract_parameters("remind me -3 times To Alice", &ip);
    assert_eq!(params.len(), 2);
    assert!(matches!(&params[0], (n, ParamValue::Number(-3)) if n == "count"));
    assert!(matches!(&params[1], (n, ParamValue::Text(s)) if n == "target" && s == "Alice"));
}

fn manifest(name: &str, version: &str, patterns: Vec<String>) -> PluginManifest {
    PluginManifest {
        name: name.to_string(),
        version: version.to_string(),
        description: String::new(),
        author: String::new(),
        entry_point: String::new(),
        permissions: vec![],
        dependencies: vec![],
        intent_patterns: vec![IntentPattern {
            name: "x".to_string(),
            patterns,
            confidence: 50,
            parameters: vec![],
        }],
        config_schema: None,
    }
}

#[test]
fn invalid_manifests_are_rejected() {
    assert!(validate_manifest(&manifest("p", "1", vec!["a".to_string()])).is_ok());
    assert!(matches!(
        validate_manifest(&manifest("", "1", vec!["a".to_string()])),
        Err(PluginError::InvalidConfig(_))
    ));
    assert!(matches!(
        validate_manifest(&manifest("p", "", vec!["a".to_string()])),
        Err(PluginError::InvalidConfig(_))
    ));
    match validate_manifest(&manifest("p", "1", vec![])) {
        Err(PluginError::InvalidConfig(m)) => assert_eq!(m, "Intent pattern 'x' has no patterns"),
        _ => panic!("expected InvalidConfig"),
    }
}

#[test]
fn missing_plugin_is_not_found() {
    let manager = loaded_manager();
    match manager.execute_plugin("calendar", "x", &vec![]) {
        Err(PluginError::NotFound(n)) => assert_eq!(n, "calendar"),
        _ => panic!("expected NotFound"),
    }
    let mut manager = loaded_manager();
    assert!(matches!(manager.set_plugin_config("calendar", vec![]), Err(PluginError::NotFound(_))));
}

#[test]
fn weather_config_needs_api_key() {
    let mut manager = loaded_manager();
    assert!(matches!(
        manager.set_plugin_config("weather", vec![("units".to_string(), "metric".to_string())]),
        Err(PluginError::InvalidConfig(_))
    ));
    assert!(manager
        .set_plugin_config("weather", vec![("api_key".to_string(), "k".to_string())])
        .is_ok());
}

#[test]
fn weather_answers_with_key_after_reload() {
    let mut manager = loaded_manager();
    manager
        .set_plugin_config("weather", vec![("api_key".to_string(), "k".to_string())])
        .ok()
        .unwrap();
    assert!(manager.load_plugin(WeatherPlugin::new()).is_ok());
    assert_eq!(manager.list_plugins().len(), 1);
    let params = vec![("location".to_string(), ParamValue::Text("Rome".to_string()))];
    let r = manager.execute_plugin("weather", "get_weather", &params).ok().unwrap();
    assert_eq!(
        r.message,
        "The weather in Rome is partly cloudy with a temperature of 72 degrees Fahrenheit"
    );
}

#[test]
fn weather_unknown_intent_fails() {
    let plugin = WeatherPlugin::new();
    match plugin.execute("forecast", &vec![]) {
        Err(PluginError::ExecutionFailed(m)) => assert_eq!(m, "Unknown intent: forecast"),
        _ => panic!("expected ExecutionFailed"),
    }
    let r = plugin.execute("get_weather", &vec![]).ok().unwrap();
    assert_eq!(
        r.message,
        "Weather information for your location is not available. Please configure an API key."
    );
}

#[test]
fn unload_removes_plugin() {
    let mut manager = loaded_manager();
    assert!(manager.unload_plugin("weather").is_ok());
    assert_eq!(manager.list_plugins().len(), 0);
    assert!(manager.unload_plugin("weather").is_ok());
}

#[test]
fn plugin_error_descriptions() {
    assert_eq!(PluginError::NotFound("a".into()).describe(), "Plugin not found: a");
    assert_eq!(PluginError::PermissionDenied("b".into()).describe(), "Permission denied: b");
    assert_eq!(PluginError::InvalidConfig("c".into()).describe(), "Invalid configuration: c");
    assert_eq!(PluginError::ExecutionFailed("d".into()).describe(), "Execution failed: d");
}

#[test]
fn test_plugin_executor_weather() {
    let mut executor = PluginExecutor::new();
    assert!(executor.initialize().is_ok());
    let intent = Intent::Unknown { text: "what's the weather like in Boston".to_string() };
    match executor.execute(&intent) {
        Dispatch::Handled { response, .. } => {
            assert!(response.contains("Boston") || response.contains("weather"))
        }
        Dispatch::Fallback => panic!("expected the weather plugin to answer"),
    }
}

#[test]
fn test_plugin_executor_fallback() {
    let mut executor = PluginExecutor::new();
    assert!(executor.initialize().is_ok());
    let intent = Intent::Timer { duration_secs: 60 };
    assert!(matches!(executor.execute(&intent), Dispatch::Fallback));
    let response = SimpleExecutor::plan(&intent).response;
    assert!(response.contains("Timer set"));
}

#[test]
fn test_plugin_executor_builder() {
    let executor = PluginExecutorBuilder::new()
        .with_security(false)
        .with_builtin_plugins(true)
        .build();
    assert!(executor.is_ok());
    let plugin_executor = executor.ok().unwrap();
    let plugins = plugin_executor.list_plugins();
    assert!(!plugins.is_empty());
    assert!(plugins.iter().any(|p| p.contains("weather")));
}

#[test]
fn test_plugin_list() {
    let mut executor = PluginExecutor::new();
    assert!(executor.initialize().is_ok());
    let plugins = executor.list_plugins();
    assert!(!plugins.is_empty());
    assert!(plugins.iter().any(|p| p.contains("weather")));
    assert_eq!(plugins[0], "weather v1.0.0 - Weather information plugin");
}

#[test]
fn builder_without_builtins_is_empty() {
    let executor = PluginExecutorBuilder::new()
        .with_plugins_dir("/srv/plugins".to_string())
        .with_builtin_plugins(false)
        .build()
        .ok()
        .unwrap();
    assert!(executor.list_plugins().is_empty());
}

#[test]
fn notifications_are_relayed_in_order() {
    let events = vec![
        PluginEvent::Log { level: "info".into(), message: "m".into() },
        PluginEvent::Notification { title: "Rain".into(), body: "bring a coat".into() },
        PluginEvent::StateChange { key: "k".into(), value: "v".into() },
        PluginEvent::Notification { title: "Sun".into(), body: "later".into() },
    ];
    let (notes, other) = relay_events(events);
    let texts: Vec<String> = notes
        .iter()
        .map(|e| match e {
            EngineEvent::Notification(s) => s.clone(),
            _ => panic!("only notifications are relayed"),
        })
        .collect();
    assert_eq!(texts, vec!["Rain: bring a coat", "Sun: later"]);
    assert_eq!(other.len(), 2);
}

#[test]
fn failed_plugin_results_fall_back() {
    let failed = PluginResult { success: false, message: "no".into(), data: None, events: vec![] };
    assert!(matches!(plugin_response(Ok(failed)), Dispatch::Fallback));
    assert!(matches!(
        plugin_response(Err(PluginError::ExecutionFailed("x".into()))),
        Dispatch::Fallback
    ));
    let ok = PluginResult { success: true, message: "yes".into(), data: None, events: vec![] };
    assert!(matches!(plugin_response(Ok(ok)), Dispatch::Handled { response, .. } if response == "yes"));
}

#[test]
fn invalid_regex_falls_back_to_text_search() {
    let pattern = IntentPattern {
        name: "paren".to_string(),
        patterns: vec!["(Unclosed".to_string()],
        confidence: 50,
        parameters: vec![],
    };
    assert!(matches_pattern("this has (UNCLOSED parens", &pattern));
    assert!(!matches_pattern("nothing here", &pattern));
}

#[test]
fn weather_result_carries_log_and_reading() {
    let plugin = WeatherPlugin::new();
    let params = vec![("location".to_string(), ParamValue::Text("Boston".to_string()))];
    let r = plugin.execute("get_weather", &params).ok().unwrap();
    assert!(matches!(&r.events[0], PluginEvent::Log { level, message } if level == "info" && message == "Weather query for Boston"));
    let data = r.data.unwrap();
    assert!(matches!(&data[0], (k, ParamValue::Text(v)) if k == "location" && v == "Boston"));
    assert!(matches!(&data[1], (k, ParamValue::Number(72)) if k == "temperature"));
    assert!(matches!(&data[2], (k, ParamValue::Text(v)) if k == "condition" && v == "partly_cloudy"));
}
