//! The built-in weather plugin.
use crate::plugin::{
    config_view, manifest_valid, params_view, IntentPattern, ParamValue, ParamView, ParameterDef, Params,
    Permission, Plugin, PluginConfig, PluginContext, PluginError, PluginEvent, PluginManifest,
    PluginResult,
};
use crate::text::{cat, chars_of, same_chars, string_of};
use vstd::prelude::*;

verus! {

/// The text of the last parameter named `location`, when it is text.
pub open spec fn location_param(ps: Seq<(Seq<char>, ParamView)>) -> Option<Seq<char>>
    decreases ps.len(),
{
    if ps.len() == 0 {
        None
    } else if ps.last().0 == "location"@ {
        match ps.last().1 {
            ParamView::Text(s) => Some(s),
            ParamView::Number(_) => None,
        }
    } else {
        location_param(ps.drop_last())
    }
}

/// The place a weather request is about: the location parameter, or `your location`.
pub open spec fn weather_place(ps: Seq<(Seq<char>, ParamView)>) -> Seq<char> {
    match location_param(ps) {
        Some(l) => l,
        None => "your location"@,
    }
}

/// The weather answer for `place`, with or without an API key.
pub open spec fn weather_message(place: Seq<char>, keyed: bool) -> Seq<char> {
    if keyed {
        "The weather in "@ + place + " is partly cloudy with a temperature of 72 degrees Fahrenheit"@
    } else {
        "Weather information for "@ + place + " is not available. Please configure an API key."@
    }
}

/// The value stored under `key`, the last one when the key repeats.
pub open spec fn config_value(c: Seq<(Seq<char>, Seq<char>)>, key: Seq<char>) -> Option<Seq<char>>
    decreases c.len(),
{
    if c.len() == 0 {
        None
    } else if c.last().0 == key {
        Some(c.last().1)
    } else {
        config_value(c.drop_last(), key)
    }
}

/// The weather plugin's answer to `intent`: for `get_weather`, a successful result about the
/// requested place (or the user's location) with one info log entry and the reading as
/// data; any other intent fails.
pub open spec fn weather_answer(
    keyed: bool,
    intent: Seq<char>,
    ps: Seq<(Seq<char>, ParamView)>,
    r: Result<PluginResult, PluginError>,
) -> bool {
    if intent == "get_weather"@ {
        let place = weather_place(ps);
        r matches Ok(res) && res.success && res.message@ == weather_message(place, keyed)
            && res.events@.len() == 1 && (res.events@[0] matches PluginEvent::Log { level, message }
            && level@ == "info"@ && message@ == "Weather query for "@ + place) && (res.data matches Some(d)
            && params_view(d@) == seq![
            ("location"@, ParamView::Text(place)),
            ("temperature"@, ParamView::Number(72)),
            ("condition"@, ParamView::Text("partly_cloudy"@)),
        ])
    } else {
        r matches Err(e) && e matches PluginError::ExecutionFailed(m) && m@ == "Unknown intent: "@ + intent
    }
}

fn location_of(ps: &Params) -> (r: Option<String>)
    ensures
        match r {
            Some(s) => location_param(params_view(ps@)) == Some(s@),
            None => location_param(params_view(ps@)) is None,
        },
{
    let mut i: usize = ps.len();
    let key = chars_of("location");
    assert(params_view(ps@).subrange(0, ps@.len() as int) =~= params_view(ps@));
    while i > 0
        invariant
            i <= ps@.len(),
            key@ == "location"@,
            location_param(params_view(ps@)) == location_param(params_view(ps@).subrange(0, i as int)),
        decreases i,
    {
        let ghost sub = params_view(ps@).subrange(0, i as int);
        assert(sub.drop_last() =~= params_view(ps@).subrange(0, i - 1));
        assert(sub.last() == (ps@[i - 1].0@, ps@[i - 1].1@));
        if same_chars(&chars_of(ps[i - 1].0.as_str()), &key) {
            return match &ps[i - 1].1 {
                ParamValue::Text(s) => Some(s.clone()),
                ParamValue::Number(_) => None,
            };
        }
        i = i - 1;
    }
    assert(params_view(ps@).subrange(0, 0) =~= Seq::<(Seq<char>, ParamView)>::empty());
    None
}


fn config_lookup(c: &PluginConfig, key: &str) -> (r: Option<String>)
    ensures
        match r {
            Some(s) => config_value(config_view(c@), key@) == Some(s@),
            None => config_value(config_view(c@), key@) is None,
        },
{
    let mut i: usize = c.len();
    let k = chars_of(key);
    assert(config_view(c@).subrange(0, c@.len() as int) =~= config_view(c@));
    while i > 0
        invariant
            i <= c@.len(),
            k@ == key@,
            config_value(config_view(c@), key@) == config_value(config_view(c@).subrange(0, i as int), key@),
        decreases i,
    {
        assert(config_view(c@).subrange(0, i as int).drop_last() =~= config_view(c@).subrange(0, i - 1));
        assert(config_view(c@).subrange(0, i as int).last() == (c@[i - 1].0@, c@[i - 1].1@));
        if same_chars(&chars_of(c[i - 1].0.as_str()), &k) {
            return Some(c[i - 1].1.clone());
        }
        i = i - 1;
    }
    None
}

/// Answers weather questions; the answer is complete once an API key is configured.
pub struct WeatherPlugin {
    manifest: PluginManifest,
    context: Option<PluginContext>,
    api_key: Option<String>,
}

/// The built-in plugin's name.
pub open spec fn weather_name() -> Seq<char> {
    "weather"@
}

impl WeatherPlugin {
    /// Whether an API key is configured.
    pub closed spec fn has_key(&self) -> bool {
        self.api_key is Some
    }

    /// The plugin named `weather`, version 1.0.0, serving `get_weather` with one optional
    /// string parameter `location`, and not yet configured.
    pub fn new() -> (r: WeatherPlugin)
        ensures
            manifest_valid(r.spec_manifest()),
            r.spec_manifest().name@ == weather_name(),
            r.spec_manifest().version@ == "1.0.0"@,
            r.spec_manifest().description@ == "Weather information plugin"@,
            r.spec_manifest().intent_patterns@.len() == 1,
            r.spec_manifest().intent_patterns@[0].name@ == "get_weather"@,
            r.spec_manifest().intent_patterns@[0].confidence == 80,
            r.spec_manifest().intent_patterns@[0].patterns@.len() == 3,
            r.spec_manifest().intent_patterns@[0].patterns@[0]@ == r"(?i)weather.*in\s+(\w+)"@,
            r.spec_manifest().intent_patterns@[0].patterns@[1]@ == r"(?i)what.*weather.*like"@,
            r.spec_manifest().intent_patterns@[0].patterns@[2]@ == r"(?i)temperature.*in\s+(\w+)"@,
            r.spec_manifest().intent_patterns@[0].parameters@.len() == 1,
            r.spec_manifest().intent_patterns@[0].parameters@[0].name@ == "location"@,
            r.spec_manifest().intent_patterns@[0].parameters@[0].param_type@ == "string"@,
            r.spec_manifest().intent_patterns@[0].parameters@[0].required == false,
            !r.has_key(),
    {
        let schema = string_of(&chars_of(
            r#"{"type":"object","properties":{"api_key":{"type":"string","description":"OpenWeatherMap API key"},"default_location":{"type":"string","description":"Default location for weather queries"}},"required":["api_key"]}"#,
        ));
        let ip = IntentPattern {
            name: string_of(&chars_of("get_weather")),
            patterns: vec![
                string_of(&chars_of(r"(?i)weather.*in\s+(\w+)")),
                string_of(&chars_of(r"(?i)what.*weather.*like")),
                string_of(&chars_of(r"(?i)temperature.*in\s+(\w+)")),
            ],
            confidence: 80,
            parameters: vec![
                ParameterDef {
                    name: string_of(&chars_of("location")),
                    param_type: string_of(&chars_of("string")),
                    required: false,
                    description: string_of(&chars_of("Location for weather query")),
                },
            ],
        };
        let manifest = PluginManifest {
            name: string_of(&chars_of("weather")),
            version: string_of(&chars_of("1.0.0")),
            description: string_of(&chars_of("Weather information plugin")),
            author: string_of(&chars_of("Friday Assistant")),
            entry_point: string_of(&chars_of("weather_plugin")),
            permissions: vec![
                Permission::Network {
                    domains: vec![string_of(&chars_of("api.openweathermap.org"))],
                },
            ],
            dependencies: Vec::new(),
            intent_patterns: vec![ip],
            config_schema: Some(schema),
        };
        proof {
            reveal_strlit("weather");
            reveal_strlit("1.0.0");
        }
        WeatherPlugin { manifest, context: None, api_key: None }
    }

    /// Serves `intent` with the given parameters.
    pub fn respond(&self, intent: &str, parameters: &Params) -> (r: Result<
        PluginResult,
        PluginError,
    >)
        ensures
            weather_answer(self.has_key(), intent@, params_view(parameters@), r),
    {
        if !same_chars(&chars_of(intent), &chars_of("get_weather")) {
            return Err(PluginError::ExecutionFailed(cat("Unknown intent: ", intent)));
        }
        let place = match location_of(parameters) {
            Some(l) => l,
            None => string_of(&chars_of("your location")),
        };
        let message = if self.api_key.is_some() {
            cat(
                cat("The weather in ", place.as_str()).as_str(),
                " is partly cloudy with a temperature of 72 degrees Fahrenheit",
            )
        } else {
            cat(
                cat("Weather information for ", place.as_str()).as_str(),
                " is not available. Please configure an API key.",
            )
        };
        let data = vec![
            (string_of(&chars_of("location")), ParamValue::Text(place.clone())),
            (string_of(&chars_of("temperature")), ParamValue::Number(72)),
            (string_of(&chars_of("condition")), ParamValue::Text(string_of(&chars_of("partly_cloudy")))),
        ];
        let log = PluginEvent::Log {
            level: string_of(&chars_of("info")),
            message: cat("Weather query for ", place.as_str()),
        };
        assert(params_view(data@) =~= seq![
            ("location"@, ParamView::Text(place@)),
            ("temperature"@, ParamView::Number(72)),
            ("condition"@, ParamView::Text("partly_cloudy"@)),
        ]);
        let events = vec![log];
        assert(events@[0] == log);
        Ok(PluginResult { success: true, message, data: Some(data), events })
    }

    /// Takes the API key from the settings, when present.
    pub fn configure(&mut self, context: PluginContext)
        ensures
            final(self).spec_manifest() == old(self).spec_manifest(),
            final(self).has_key() == (config_value(config_view(context.config@), "api_key"@) is Some),
    {
        self.api_key = config_lookup(&context.config, "api_key");
        self.context = Some(context);
    }

    /// Settings are accepted when they hold an `api_key`.
    pub fn check_config(config: &PluginConfig) -> (r: Result<(), PluginError>)
        ensures
            r is Ok <==> config_value(config_view(config@), "api_key"@) is Some,
            r matches Err(e) ==> e is InvalidConfig,
    {
        match config_lookup(config, "api_key") {
            Some(_) => Ok(()),
            None => Err(PluginError::InvalidConfig(string_of(&chars_of("api_key is required")))),
        }
    }
}

impl Plugin for WeatherPlugin {
    closed spec fn spec_manifest(&self) -> PluginManifest {
        self.manifest
    }

    open spec fn always_initializes(&self) -> bool {
        true
    }

    open spec fn answers(
        &self,
        intent: Seq<char>,
        params: Seq<(Seq<char>, ParamView)>,
        r: Result<PluginResult, PluginError>,
    ) -> bool {
        weather_answer(self.has_key(), intent, params, r)
    }

    open spec fn accepts_config(&self, config: Seq<(Seq<char>, Seq<char>)>) -> bool {
        config_value(config, "api_key"@) is Some
    }

    fn manifest(&self) -> (r: &PluginManifest) {
        &self.manifest
    }

    fn initialize(&mut self, context: PluginContext) -> (r: Result<(), PluginError>) {
        self.configure(context);
        Ok(())
    }

    fn execute(&self, intent: &str, parameters: &Params) -> Result<PluginResult, PluginError> {
        self.respond(intent, parameters)
    }

    fn cleanup(&mut self) -> Result<(), PluginError> {
        Ok(())
    }

    fn validate_config(&self, config: &PluginConfig) -> Result<(), PluginError> {
        WeatherPlugin::check_config(config)
    }
}

} // verus!
