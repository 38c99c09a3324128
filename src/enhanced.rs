//! The enhanced executor: decides how each intent is served and words the responses; the
//! runner performs the work that touches the machine.
use crate::engine::{Intent, SystemAction, timer_set_message, timer_set_text};
use crate::text::{
    ascii_lower, cat, chars_of, contains, contains_seq, find_from, lower_of, lowercase, occurs_at,
    same_chars, starts_with, starts_with_seq, string_of, to_ascii_lower, trim, trim_exec,
};
use vstd::prelude::*;

verus! {

/// What the executor asks the runner to do.
pub enum Task {
    /// Start a timer of this many seconds.
    Timer(u64),
    /// Report the weather for a place, or for the user's location.
    Weather(Option<String>),
    /// Launch the application with this (alias-resolved) name.
    LaunchApp(String),
    /// Perform the named system action.
    SystemControl(String),
    /// Answer a question.
    Query(String),
    /// Say this and do nothing else.
    Reply(String),
}

/// The text after the first occurrence of `key` in the ASCII-lower-cased text, trimmed.
pub open spec fn after_key(t: Seq<char>, key: Seq<char>) -> Option<Seq<char>> {
    let l = ascii_lower(t);
    if contains_seq(l, key) {
        let i = choose|i: int| occurs_at(l, key, i) && forall|j: int| 0 <= j < i ==> !occurs_at(l, key, j);
        Some(trim(t.subrange(i + key.len(), t.len() as int)))
    } else {
        None
    }
}

/// The system action a free-text request names.
pub open spec fn spoken_action(l: Seq<char>) -> Seq<char> {
    if contains_seq(l, "volume up"@) || contains_seq(l, "louder"@) {
        "volume_up"@
    } else if contains_seq(l, "volume down"@) || contains_seq(l, "quieter"@) {
        "volume_down"@
    } else if contains_seq(l, "mute"@) && !contains_seq(l, "unmute"@) {
        "mute"@
    } else if contains_seq(l, "unmute"@) {
        "unmute"@
    } else {
        "volume_up"@
    }
}

/// A question word opens the request.
pub open spec fn is_question(l: Seq<char>) -> bool {
    starts_with_seq(l, "what"@) || starts_with_seq(l, "who"@) || starts_with_seq(l, "when"@)
        || starts_with_seq(l, "where"@) || starts_with_seq(l, "how"@) || starts_with_seq(l, "why"@)
}

/// The reply when nothing applies.
pub open spec fn no_help() -> Seq<char> {
    "I'm not sure how to help with that. Try asking about the weather, setting a timer, or launching an app."@
}

/// The name of a system action.
pub open spec fn action_name(a: SystemAction) -> Seq<char> {
    match a {
        SystemAction::VolumeUp => "volume_up"@,
        SystemAction::VolumeDown => "volume_down"@,
        SystemAction::Mute => "mute"@,
        SystemAction::Unmute => "unmute"@,
        SystemAction::Sleep => "sleep"@,
        SystemAction::Shutdown => "shutdown"@,
        SystemAction::Restart => "restart"@,
    }
}

/// The answer to a system action performed without platform support.
pub open spec fn simulated_action_message(a: Seq<char>) -> Seq<char> {
    if a == "volume_up"@ {
        "Volume up (simulated)"@
    } else if a == "volume_down"@ {
        "Volume down (simulated)"@
    } else if a == "mute"@ {
        "Audio muted (simulated)"@
    } else if a == "unmute"@ {
        "Audio unmuted (simulated)"@
    } else {
        "System action '"@ + a + "' executed (simulated)"@
    }
}

/// The text after the first occurrence of `key` in the ASCII-lower-cased `t`, trimmed.
fn after_key_exec(t: &Vec<char>, l: &Vec<char>, key: &str) -> (r: Option<Vec<char>>)
    requires
        l@ == ascii_lower(t@),
    ensures
        match r {
            Some(v) => after_key(t@, key@) == Some(v@),
            None => after_key(t@, key@) is None,
        },
{
    let k = chars_of(key);
    match find_from(l, &k, 0) {
        Some(i) => {
            let ghost c = choose|c: int| occurs_at(l@, key@, c) && forall|j: int| 0 <= j < c ==> !occurs_at(l@, key@, j);
            assert(c == i as int) by {
                if c < i {
                } else if i < c {
                }
            };
            assert(occurs_at(l@, k@, i as int));
            let ln = l.len();
            assert(i + k@.len() <= ln);
            let mut rest: Vec<char> = Vec::new();
            let mut p: usize = i + k.len();
            let start = p;
            assert(l@.len() == t@.len());
            while p < t.len()
                invariant
                    start <= p <= t@.len(),
                    rest@ == t@.subrange(start as int, p as int),
                decreases t@.len() - p,
            {
                rest.push(t[p]);
                p = p + 1;
                assert(rest@ =~= t@.subrange(start as int, p as int));
            }
            Some(trim_exec(&rest))
        },
        None => {
            assert(!contains_seq(l@, key@)) by {
                if contains_seq(l@, key@) {
                    let w = choose|w: int| occurs_at(l@, key@, w);
                }
            };
            None
        },
    }
}

fn spoken_action_exec(l: &Vec<char>) -> (r: String)
    ensures
        r@ == spoken_action(l@),
{
    if contains(l, &chars_of("volume up")) || contains(l, &chars_of("louder")) {
        string_of(&chars_of("volume_up"))
    } else if contains(l, &chars_of("volume down")) || contains(l, &chars_of("quieter")) {
        string_of(&chars_of("volume_down"))
    } else if contains(l, &chars_of("mute")) && !contains(l, &chars_of("unmute")) {
        string_of(&chars_of("mute"))
    } else if contains(l, &chars_of("unmute")) {
        string_of(&chars_of("unmute"))
    } else {
        string_of(&chars_of("volume_up"))
    }
}

/// The application a spoken name stands for: its alias target when the lower-case name is
/// an alias, else the name itself.
pub open spec fn resolved(aliases: Seq<(Seq<char>, Seq<char>)>, name: Seq<char>) -> Seq<char> {
    match alias_target(aliases, lower_of(name)) {
        Some(t) => t,
        None => name,
    }
}

/// Serves timers, weather, application launches, system control and questions.
pub struct EnhancedExecutor {
    weather_api_key: Option<String>,
    app_aliases: Vec<(String, String)>,
}

/// The built-in application aliases.
pub open spec fn default_aliases() -> Seq<(Seq<char>, Seq<char>)> {
    seq![
        ("chrome"@, "Google Chrome"@),
        ("firefox"@, "Firefox"@),
        ("safari"@, "Safari"@),
        ("edge"@, "Microsoft Edge"@),
        ("vscode"@, "Visual Studio Code"@),
        ("code"@, "Visual Studio Code"@),
        ("terminal"@, "Terminal"@),
        ("iterm"@, "iTerm"@),
        ("slack"@, "Slack"@),
        ("discord"@, "Discord"@),
        ("zoom"@, "Zoom"@),
        ("teams"@, "Microsoft Teams"@),
        ("notes"@, "Notes"@),
        ("calendar"@, "Calendar"@),
        ("mail"@, "Mail"@),
        ("finder"@, "Finder"@),
        ("spotify"@, "Spotify"@),
        ("music"@, "Music"@),
        ("photos"@, "Photos"@),
        ("vlc"@, "VLC"@),
    ]
}

/// The application that alias `key` stands for: the first entry with that alias.
pub open spec fn alias_target(aliases: Seq<(Seq<char>, Seq<char>)>, key: Seq<char>) -> Option<Seq<char>>
    decreases aliases.len(),
{
    if aliases.len() == 0 {
        None
    } else if aliases[0].0 == key {
        Some(aliases[0].1)
    } else {
        alias_target(aliases.drop_first(), key)
    }
}

impl EnhancedExecutor {
    /// The alias table.
    pub closed spec fn aliases(&self) -> Seq<(Seq<char>, Seq<char>)> {
        self.app_aliases@.map_values(|e: (String, String)| (e.0@, e.1@))
    }

    /// Whether a weather API key is configured.
    pub closed spec fn has_key(&self) -> bool {
        self.weather_api_key is Some
    }

    /// The built-in aliases and no weather API key.
    pub fn new() -> (r: EnhancedExecutor)
        ensures
            r.aliases() == default_aliases(),
            !r.has_key(),
    {
        let mut e = EnhancedExecutor { weather_api_key: None, app_aliases: Vec::new() };
        e.initialize_app_aliases();
        e
    }

    fn initialize_app_aliases(&mut self)
        requires
            old(self).app_aliases@.len() == 0,
        ensures
            final(self).aliases() == default_aliases(),
            final(self).weather_api_key == old(self).weather_api_key,
    {
        let table: Vec<(&str, &str)> = vec![
            ("chrome", "Google Chrome"),
            ("firefox", "Firefox"),
            ("safari", "Safari"),
            ("edge", "Microsoft Edge"),
            ("vscode", "Visual Studio Code"),
            ("code", "Visual Studio Code"),
            ("terminal", "Terminal"),
            ("iterm", "iTerm"),
            ("slack", "Slack"),
            ("discord", "Discord"),
            ("zoom", "Zoom"),
            ("teams", "Microsoft Teams"),
            ("notes", "Notes"),
            ("calendar", "Calendar"),
            ("mail", "Mail"),
            ("finder", "Finder"),
            ("spotify", "Spotify"),
            ("music", "Music"),
            ("photos", "Photos"),
            ("vlc", "VLC"),
        ];
        let ghost spec_table = default_aliases();
        assert(table@.map_values(|e: (&str, &str)| (e.0@, e.1@)) =~= spec_table);
        let mut i: usize = 0;
        while i < table.len()
            invariant
                i <= table@.len(),
                spec_table == table@.map_values(|e: (&str, &str)| (e.0@, e.1@)),
                self.aliases() == spec_table.subrange(0, i as int),
                self.weather_api_key == old(self).weather_api_key,
            decreases table@.len() - i,
        {
            let (alias, app) = table[i];
            let ghost before = self.aliases();
            let entry = (string_of(&chars_of(alias)), string_of(&chars_of(app)));
            assert((entry.0@, entry.1@) == spec_table[i as int]);
            self.app_aliases.push(entry);
            assert(self.aliases() =~= before.push(spec_table[i as int]));
            i = i + 1;
            assert(self.aliases() =~= spec_table.subrange(0, i as int));
        }
        assert(spec_table.subrange(0, table@.len() as int) =~= spec_table);
    }

    pub fn with_weather_api_key(self, api_key: String) -> (r: EnhancedExecutor)
        ensures
            r.aliases() == self.aliases(),
            r.has_key(),
    {
        EnhancedExecutor { weather_api_key: Some(api_key), ..self }
    }

    /// The application an alias stands for.
    pub fn alias(&self, key: &str) -> (r: Option<String>)
        ensures
            match r {
                Some(s) => alias_target(self.aliases(), key@) == Some(s@),
                None => alias_target(self.aliases(), key@) is None,
            },
    {
        let k = chars_of(key);
        let mut i: usize = 0;
        assert(self.aliases().subrange(0, self.aliases().len() as int) =~= self.aliases());
        while i < self.app_aliases.len()
            invariant
                i <= self.app_aliases@.len(),
                k@ == key@,
                alias_target(self.aliases().subrange(i as int, self.aliases().len() as int), key@)
                    == alias_target(self.aliases(), key@),
            decreases self.app_aliases@.len() - i,
        {
            let ghost rest = self.aliases().subrange(i as int, self.aliases().len() as int);
            assert(rest.drop_first() =~= self.aliases().subrange(i + 1, self.aliases().len() as int));
            if same_chars(&chars_of(self.app_aliases[i].0.as_str()), &k) {
                return Some(self.app_aliases[i].1.clone());
            }
            i = i + 1;
        }
        None
    }

    /// The application to launch for a spoken name: its alias target when the lower-case
    /// name is an alias, else the name itself.
    pub fn resolve_app(&self, app_name: &str) -> (r: String)
        ensures
            r@ == resolved(self.aliases(), app_name@),
    {
        let key = string_of(&lowercase(app_name));
        match self.alias(key.as_str()) {
            Some(t) => t,
            None => string_of(&chars_of(app_name)),
        }
    }

    /// What to do for `intent`. Free text is read by keywords: the weather (with the place
    /// after ` in `), an application after `open `, `launch ` or `start `, volume and
    /// muting, and questions.
    pub fn plan(&self, intent: &Intent) -> (r: Task)
        ensures
            match *intent {
                Intent::Timer { duration_secs } => r == Task::Timer(duration_secs),
                Intent::Weather { location } => r == Task::Weather(location),
                Intent::AppLaunch { app_name } => r matches Task::LaunchApp(n) && n@ == resolved(
                    self.aliases(),
                    app_name@,
                ),
                Intent::SystemControl { action } => r matches Task::SystemControl(a) && a@
                    == action_name(action),
                Intent::Query { question } => r == Task::Query(question),
                Intent::Greeting { .. } => r matches Task::Reply(m) && m@ == "Hello! How can I help?"@,
                Intent::Unknown { text } => {
                    let l = ascii_lower(text@);
                    if contains_seq(l, "weather"@) {
                        r matches Task::Weather(loc) && match loc {
                            Some(x) => after_key(text@, " in "@) == Some(x@),
                            None => after_key(text@, " in "@) is None,
                        }
                    } else if contains_seq(l, "open "@) {
                        r matches Task::LaunchApp(n) && after_key(text@, "open "@) matches Some(a) && n@ == resolved(self.aliases(), a)
                    } else if contains_seq(l, "launch "@) {
                        r matches Task::LaunchApp(n) && after_key(text@, "launch "@) matches Some(a) && n@ == resolved(self.aliases(), a)
                    } else if contains_seq(l, "start "@) {
                        r matches Task::LaunchApp(n) && after_key(text@, "start "@) matches Some(a) && n@ == resolved(self.aliases(), a)
                    } else if contains_seq(l, "volume"@) || contains_seq(l, "mute"@) {
                        r matches Task::SystemControl(a) && a@ == spoken_action(l)
                    } else if is_question(l) {
                        r matches Task::Query(q) && q@ == text@
                    } else {
                        r matches Task::Reply(m) && m@ == no_help()
                    }
                },
            },
    {
        match intent {
            Intent::Timer { duration_secs } => Task::Timer(*duration_secs),
            Intent::Weather { location } => Task::Weather(crate::engine::copy_opt(location)),
            Intent::AppLaunch { app_name } => Task::LaunchApp(self.resolve_app(app_name.as_str())),
            Intent::SystemControl { action } => Task::SystemControl(
                string_of(
                    &chars_of(
                        match action {
                            SystemAction::VolumeUp => "volume_up",
                            SystemAction::VolumeDown => "volume_down",
                            SystemAction::Mute => "mute",
                            SystemAction::Unmute => "unmute",
                            SystemAction::Sleep => "sleep",
                            SystemAction::Shutdown => "shutdown",
                            SystemAction::Restart => "restart",
                        },
                    ),
                ),
            ),
            Intent::Query { question } => Task::Query(question.clone()),
            Intent::Greeting { .. } => Task::Reply(string_of(&chars_of("Hello! How can I help?"))),
            Intent::Unknown { text } => {
                let t = chars_of(text.as_str());
                let l = to_ascii_lower(&t);
                if contains(&l, &chars_of("weather")) {
                    let loc = match after_key_exec(&t, &l, " in ") {
                        Some(v) => Some(string_of(&v)),
                        None => None,
                    };
                    Task::Weather(loc)
                } else if contains(&l, &chars_of("open ")) {
                    Task::LaunchApp(self.resolve_app(string_of(&after_key_exec(&t, &l, "open ").unwrap()).as_str()))
                } else if contains(&l, &chars_of("launch ")) {
                    Task::LaunchApp(self.resolve_app(string_of(&after_key_exec(&t, &l, "launch ").unwrap()).as_str()))
                } else if contains(&l, &chars_of("start ")) {
                    Task::LaunchApp(self.resolve_app(string_of(&after_key_exec(&t, &l, "start ").unwrap()).as_str()))
                } else if contains(&l, &chars_of("volume")) || contains(&l, &chars_of("mute")) {
                    Task::SystemControl(spoken_action_exec(&l))
                } else if starts_with(&l, &chars_of("what")) || starts_with(&l, &chars_of("who"))
                    || starts_with(&l, &chars_of("when")) || starts_with(&l, &chars_of("where"))
                    || starts_with(&l, &chars_of("how")) || starts_with(&l, &chars_of("why")) {
                    Task::Query(text.clone())
                } else {
                    Task::Reply(string_of(&chars_of(
                        "I'm not sure how to help with that. Try asking about the weather, setting a timer, or launching an app.",
                    )))
                }
            },
        }
    }

    /// The answer about the weather at `location` (the user's location when none).
    pub fn weather_response(&self, location: &Option<String>) -> (r: String)
        ensures
            ({
                let place = match location {
                    Some(l) => l@,
                    None => "your location"@,
                };
                r@ == if self.has_key() {
                    "The weather in "@ + place + " is partly cloudy with a temperature of 72 degrees Fahrenheit"@
                } else {
                    "Weather information for "@ + place + " is not available. Please configure a weather API key."@
                }
            }),
    {
        let place = match location {
            Some(l) => l.clone(),
            None => string_of(&chars_of("your location")),
        };
        if self.weather_api_key.is_some() {
            cat(
                cat("The weather in ", place.as_str()).as_str(),
                " is partly cloudy with a temperature of 72 degrees Fahrenheit",
            )
        } else {
            cat(
                cat("Weather information for ", place.as_str()).as_str(),
                " is not available. Please configure a weather API key.",
            )
        }
    }

    /// The answer after trying to launch `app`.
    pub fn launch_response(app: &str, outcome: &Result<(), String>) -> (r: String)
        ensures
            r@ == match outcome {
                Ok(()) => "Launched "@ + app@,
                Err(e) => "Sorry, I couldn't launch "@ + app@ + ". "@ + e@,
            },
    {
        match outcome {
            Ok(()) => cat("Launched ", app),
            Err(e) => cat(cat(cat("Sorry, I couldn't launch ", app).as_str(), ". ").as_str(), e.as_str()),
        }
    }

    /// The answer to a system action where the platform offers no control.
    pub fn simulated_action_response(action: &str) -> (r: String)
        ensures
            r@ == simulated_action_message(action@),
    {
        let a = chars_of(action);
        if same_chars(&a, &chars_of("volume_up")) {
            string_of(&chars_of("Volume up (simulated)"))
        } else if same_chars(&a, &chars_of("volume_down")) {
            string_of(&chars_of("Volume down (simulated)"))
        } else if same_chars(&a, &chars_of("mute")) {
            string_of(&chars_of("Audio muted (simulated)"))
        } else if same_chars(&a, &chars_of("unmute")) {
            string_of(&chars_of("Audio unmuted (simulated)"))
        } else {
            cat(cat("System action '", action).as_str(), "' executed (simulated)")
        }
    }

    /// The answer after a system action failed.
    pub fn action_failed_response(action: &str, error: &str) -> (r: String)
        ensures
            r@ == "Sorry, I couldn't "@ + action@ + ". "@ + error@,
    {
        cat(cat(cat("Sorry, I couldn't ", action).as_str(), ". ").as_str(), error)
    }

    /// The message for a timer; its completion notification reads `Timer done!`.
    pub fn timer_response(secs: u64) -> (r: String)
        ensures
            r@ == timer_set_message(secs),
    {
        timer_set_text(secs)
    }
}


/// Relies on `chrono::Local::now` and `chrono::DateTime::format` with the fixed, well-formed
/// pattern `%I:%M %p`: the local time of day now, such as `03:07 PM`; it depends on the clock.
#[verifier::external_body]
fn local_clock_time() -> (r: String) {
    chrono::Local::now().format("%I:%M %p").to_string()
}

/// Relies on `chrono::Local::now` and `chrono::DateTime::format` with the fixed, well-formed
/// pattern `%A, %B %d, %Y`: the local date now, such as `Sunday, October 18, 2026`; it
/// depends on the clock.
#[verifier::external_body]
fn local_calendar_date() -> (r: String) {
    chrono::Local::now().format("%A, %B %d, %Y").to_string()
}

/// The answer when the question is about who the assistant is.
pub open spec fn identity_answer() -> Seq<char> {
    "I'm Friday, your voice assistant. I can help you with timers, weather, launching apps, and answering questions."@
}

/// The answer to a request for help.
pub open spec fn help_answer() -> Seq<char> {
    "I can help you with setting timers, checking weather, launching applications, controlling system volume, and answering basic questions. Just ask me!"@
}

/// The answer to a question outside the knowledge base.
pub open spec fn unsure_answer(q: Seq<char>) -> Seq<char> {
    "I'm not sure about '"@ + q
        + "'. You could try asking about the time, date, weather, or ask me to launch an app or set a timer."@
}

impl EnhancedExecutor {
    /// Answers from a small knowledge base, keyed on the lower-case question: the time, the
    /// date, who the assistant is, help; anything else is admitted as unknown.
    pub fn get_knowledge_response(&self, question: &str) -> (r: String)
        ensures
            ({
                let l = lower_of(question@);
                if contains_seq(l, "time"@) {
                    starts_with_seq(r@, "The current time is "@)
                } else if contains_seq(l, "date"@) {
                    starts_with_seq(r@, "Today is "@)
                } else if contains_seq(l, "friday"@) && contains_seq(l, "assistant"@) {
                    r@ == identity_answer()
                } else if contains_seq(l, "help"@) {
                    r@ == help_answer()
                } else {
                    r@ == unsure_answer(question@)
                }
            }),
    {
        let l = lowercase(question);
        if contains(&l, &chars_of("time")) {
            let r = cat("The current time is ", local_clock_time().as_str());
            assert(r@.subrange(0, "The current time is "@.len() as int) =~= "The current time is "@);
            r
        } else if contains(&l, &chars_of("date")) {
            let r = cat("Today is ", local_calendar_date().as_str());
            assert(r@.subrange(0, "Today is "@.len() as int) =~= "Today is "@);
            r
        } else if contains(&l, &chars_of("friday")) && contains(&l, &chars_of("assistant")) {
            string_of(&chars_of(
                "I'm Friday, your voice assistant. I can help you with timers, weather, launching apps, and answering questions.",
            ))
        } else if contains(&l, &chars_of("help")) {
            string_of(&chars_of(
                "I can help you with setting timers, checking weather, launching applications, controlling system volume, and answering basic questions. Just ask me!",
            ))
        } else {
            cat(
                cat("I'm not sure about '", question).as_str(),
                "'. You could try asking about the time, date, weather, or ask me to launch an app or set a timer.",
            )
        }
    }
}

} // verus!
