//! The Intent Matcher: an ordered registry of pattern rules with confidence scores, and the
//! extraction of each intent's parameters.
use crate::engine::{Intent, NluEngine, SystemAction};
use crate::pattern::{regex_accepts, regex_finds, regex_group, Pattern};
use crate::text::{
    chars_of, contains, contains_seq, is_text, lower_of, lowercase, parse_u64, parse_u64_spec,
    sat_mul, sat_mul_spec, string_of, trim, trim_exec,
};
use vstd::prelude::*;

verus! {

/// The kinds of intent that the registry recognises.
#[derive(Clone, Copy, Debug, PartialEq, Eq, Structural)]
pub enum IntentKind {
    Greeting,
    Timer,
    Weather,
    AppLaunch,
    SystemControl,
    Query,
}

/// The parameter extractor that a rule runs on a match.
#[derive(Clone, Copy, Debug, PartialEq, Eq, Structural)]
pub enum Extractor {
    Timer,
    Weather,
    App,
    System,
    Query,
}

/// An intent with every parameter the matcher extracts.
pub enum EnhancedIntent {
    Greeting { user_name: Option<String> },
    Timer { duration_secs: u64, label: Option<String> },
    Weather { location: Option<String> },
    AppLaunch { app_name: String },
    Query { question: String },
    SystemControl { action: SystemAction },
    Unknown { text: String },
}

/// The parameters an extractor found.
pub struct IntentParams {
    pub number: Option<String>,
    pub unit: Option<String>,
    pub label: Option<String>,
    pub location: Option<String>,
    pub app_name: Option<String>,
    pub action: Option<String>,
    pub question: Option<String>,
}

/// The characters of an optional string.
pub open spec fn ov(o: Option<String>) -> Option<Seq<char>> {
    match o {
        Some(s) => Some(s@),
        None => None,
    }
}

/// A number and a time unit.
pub const DURATION_PATTERN: &'static str = r"(\d+)\s+(second|minute|hour)s?";

/// A timer's label.
pub const LABEL_PATTERN: &'static str = r"(?:for|called|named)\s+(.+?)(?:\s+timer)?$";

/// A place after a preposition.
pub const LOCATION_PATTERN: &'static str = r"(?:in|for|at)\s+(.+?)(?:\s+today|\s+tomorrow|$)";

/// An application name after a launch verb.
pub const APP_PATTERN: &'static str = r"(?:open|launch|start|run)\s+(.+)";

/// The subject of a question.
pub const QUESTION_PATTERN: &'static str = r"(?:what|who|when|where|how|why|tell\s+me\s+about)\s+(?:is\s+|was\s+|will\s+|do\s+|to\s+)?(.+)";

/// Group `g` of `pattern` in `t`, when the pattern compiles.
pub open spec fn group_if(pattern: Seq<char>, t: Seq<char>, g: nat) -> Option<Seq<char>> {
    if regex_accepts(pattern) {
        regex_group(pattern, t, g)
    } else {
        None
    }
}

/// Compiles `pattern` and returns group `g` of its match in `text`.
fn capture(pattern: &str, text: &str, g: usize) -> (r: Option<String>)
    ensures
        ov(r) == group_if(pattern@, text@, g as nat),
{
    match Pattern::compile(pattern) {
        Some(p) => p.group(text, g),
        None => None,
    }
}

/// The trimmed form of an optional text.
pub open spec fn trimmed(o: Option<Seq<char>>) -> Option<Seq<char>> {
    match o {
        Some(s) => Some(trim(s)),
        None => None,
    }
}

fn trim_opt(o: Option<String>) -> (r: Option<String>)
    ensures
        ov(r) == trimmed(ov(o)),
{
    match o {
        Some(s) => Some(string_of(&trim_exec(&chars_of(s.as_str())))),
        None => None,
    }
}

/// More than one byte long in UTF-8.
pub open spec fn longer_than_one_byte(s: Seq<char>) -> bool {
    s.len() > 1 || (s.len() == 1 && (s[0] as u32) >= 0x80)
}

/// The timer's number, when both number and unit were found.
pub open spec fn p_number(ex: Option<Extractor>, t: Seq<char>) -> Option<Seq<char>> {
    if ex == Some(Extractor::Timer) && group_if(DURATION_PATTERN@, t, 1) is Some && group_if(
        DURATION_PATTERN@,
        t,
        2,
    ) is Some {
        group_if(DURATION_PATTERN@, t, 1)
    } else {
        None
    }
}

/// The timer's unit, when both number and unit were found.
pub open spec fn p_unit(ex: Option<Extractor>, t: Seq<char>) -> Option<Seq<char>> {
    if ex == Some(Extractor::Timer) && group_if(DURATION_PATTERN@, t, 1) is Some && group_if(
        DURATION_PATTERN@,
        t,
        2,
    ) is Some {
        group_if(DURATION_PATTERN@, t, 2)
    } else {
        None
    }
}

/// The timer's label.
pub open spec fn p_label(ex: Option<Extractor>, t: Seq<char>) -> Option<Seq<char>> {
    if ex == Some(Extractor::Timer) {
        group_if(LABEL_PATTERN@, t, 1)
    } else {
        None
    }
}

/// The weather location: the trimmed capture, kept when longer than one byte.
pub open spec fn p_location(ex: Option<Extractor>, t: Seq<char>) -> Option<Seq<char>> {
    if ex == Some(Extractor::Weather) {
        match trimmed(group_if(LOCATION_PATTERN@, t, 1)) {
            Some(l) => if longer_than_one_byte(l) {
                Some(l)
            } else {
                None
            },
            None => None,
        }
    } else {
        None
    }
}

/// The application name.
pub open spec fn p_app(ex: Option<Extractor>, t: Seq<char>) -> Option<Seq<char>> {
    if ex == Some(Extractor::App) {
        trimmed(group_if(APP_PATTERN@, t, 1))
    } else {
        None
    }
}

/// The name of the system action that a lower-case utterance asks for.
pub open spec fn system_action_name(l: Seq<char>) -> Seq<char> {
    if contains_seq(l, "volume up"@) || contains_seq(l, "louder"@) || contains_seq(
        l,
        "increase"@,
    ) {
        "volume_up"@
    } else if contains_seq(l, "volume down"@) || contains_seq(l, "quieter"@) || contains_seq(
        l,
        "decrease"@,
    ) || contains_seq(l, "lower"@) {
        "volume_down"@
    } else if contains_seq(l, "mute"@) && !contains_seq(l, "unmute"@) {
        "mute"@
    } else if contains_seq(l, "unmute"@) {
        "unmute"@
    } else if contains_seq(l, "sleep"@) {
        "sleep"@
    } else if contains_seq(l, "shutdown"@) || contains_seq(l, "shut down"@) {
        "shutdown"@
    } else if contains_seq(l, "restart"@) || contains_seq(l, "reboot"@) {
        "restart"@
    } else {
        "unknown"@
    }
}

/// The system action's name.
pub open spec fn p_action(ex: Option<Extractor>, t: Seq<char>) -> Option<Seq<char>> {
    if ex == Some(Extractor::System) {
        Some(system_action_name(lower_of(t)))
    } else {
        None
    }
}

/// The question's subject.
pub open spec fn p_question(ex: Option<Extractor>, t: Seq<char>) -> Option<Seq<char>> {
    if ex == Some(Extractor::Query) {
        trimmed(group_if(QUESTION_PATTERN@, t, 1))
    } else {
        None
    }
}

/// `p` holds what extractor `ex` finds in `t`.
pub open spec fn extracted(ex: Option<Extractor>, t: Seq<char>, p: IntentParams) -> bool {
    &&& ov(p.number) == p_number(ex, t)
    &&& ov(p.unit) == p_unit(ex, t)
    &&& ov(p.label) == p_label(ex, t)
    &&& ov(p.location) == p_location(ex, t)
    &&& ov(p.app_name) == p_app(ex, t)
    &&& ov(p.action) == p_action(ex, t)
    &&& ov(p.question) == p_question(ex, t)
}

/// A timer's length in seconds: the number times the unit's seconds (saturating), or ten
/// seconds when either is missing or the number does not read as a `u64`.
pub open spec fn timer_secs(number: Option<Seq<char>>, unit: Option<Seq<char>>) -> u64 {
    match (number, unit) {
        (Some(n), Some(u)) => match parse_u64_spec(n) {
            Some(v) => if u == "minute"@ {
                sat_mul_spec(v, 60)
            } else if u == "hour"@ {
                sat_mul_spec(v, 3600)
            } else {
                v
            },
            None => 10,
        },
        _ => 10,
    }
}

/// The system action that a name stands for; volume up when the name is missing or unknown.
pub open spec fn action_from_name(a: Option<Seq<char>>) -> SystemAction {
    match a {
        Some(n) => if n == "volume_down"@ {
            SystemAction::VolumeDown
        } else if n == "mute"@ {
            SystemAction::Mute
        } else if n == "unmute"@ {
            SystemAction::Unmute
        } else if n == "sleep"@ {
            SystemAction::Sleep
        } else if n == "shutdown"@ {
            SystemAction::Shutdown
        } else if n == "restart"@ {
            SystemAction::Restart
        } else {
            SystemAction::VolumeUp
        },
        None => SystemAction::VolumeUp,
    }
}

/// A missing text reads as `unknown`.
pub open spec fn or_unknown(o: Option<Seq<char>>) -> Seq<char> {
    match o {
        Some(s) => s,
        None => "unknown"@,
    }
}

/// `r` is the intent of kind `kind` built from the given parameters.
pub open spec fn built(kind: IntentKind, p: IntentParams, r: EnhancedIntent) -> bool {
    match kind {
        IntentKind::Greeting => r matches EnhancedIntent::Greeting { user_name } && user_name is None,
        IntentKind::Timer => r matches EnhancedIntent::Timer { duration_secs, label } && duration_secs
            == timer_secs(ov(p.number), ov(p.unit)) && ov(label) == ov(p.label),
        IntentKind::Weather => r matches EnhancedIntent::Weather { location } && ov(location) == ov(
            p.location,
        ),
        IntentKind::AppLaunch => r matches EnhancedIntent::AppLaunch { app_name } && app_name@
            == or_unknown(ov(p.app_name)),
        IntentKind::SystemControl => r matches EnhancedIntent::SystemControl { action } && action
            == action_from_name(ov(p.action)),
        IntentKind::Query => r matches EnhancedIntent::Query { question } && question@
            == or_unknown(ov(p.question)),
    }
}

/// `r` is the intent of kind `kind` that extractor `ex` yields on `t`.
pub open spec fn parsed(kind: IntentKind, ex: Option<Extractor>, t: Seq<char>, r: Intent) -> bool {
    match kind {
        IntentKind::Greeting => r matches Intent::Greeting { user_name } && user_name is None,
        IntentKind::Timer => r matches Intent::Timer { duration_secs } && duration_secs
            == timer_secs(p_number(ex, t), p_unit(ex, t)),
        IntentKind::Weather => r matches Intent::Weather { location } && ov(location)
            == p_location(ex, t),
        IntentKind::AppLaunch => r matches Intent::AppLaunch { app_name } && app_name@
            == or_unknown(p_app(ex, t)),
        IntentKind::SystemControl => r matches Intent::SystemControl { action } && action
            == action_from_name(p_action(ex, t)),
        IntentKind::Query => r matches Intent::Query { question } && question@ == or_unknown(
            p_question(ex, t),
        ),
    }
}

/// A registry entry: pattern source, intent kind, confidence in percent, extractor.
pub type Entry = (Seq<char>, IntentKind, u32, Option<Extractor>);

/// The entries that compile, in order.
pub open spec fn accepted(es: Seq<Entry>) -> Seq<Entry>
    decreases es.len(),
{
    if es.len() == 0 {
        Seq::empty()
    } else if regex_accepts(es.last().0) {
        accepted(es.drop_last()).push(es.last())
    } else {
        accepted(es.drop_last())
    }
}

/// The index of the winning entry for `t`: among the entries whose pattern matches, the one
/// with the strictly highest confidence, the earliest on ties.
pub open spec fn best_in(es: Seq<Entry>, t: Seq<char>) -> Option<int>
    decreases es.len(),
{
    if es.len() == 0 {
        None
    } else {
        let prev = best_in(es.drop_last(), t);
        if regex_finds(es.last().0, t) && (prev is None || es.last().2 > es[prev->0].2) {
            Some(es.len() - 1)
        } else {
            prev
        }
    }
}


/// The winning entry has the highest confidence among the matching entries, and every
/// matching entry before it has a strictly lower one; when there is no winner, no entry
/// matches.
pub proof fn lemma_best_is_first_maximum(es: Seq<Entry>, t: Seq<char>)
    ensures
        match best_in(es, t) {
            Some(i) => 0 <= i < es.len() && regex_finds(es[i].0, t) && (forall|j: int|
                0 <= j < es.len() && regex_finds(#[trigger] es[j].0, t) ==> es[j].2 <= es[i].2)
                && (forall|j: int| 0 <= j < i && regex_finds(#[trigger] es[j].0, t) ==> es[j].2 < es[i].2),
            None => forall|j: int| 0 <= j < es.len() ==> !regex_finds(#[trigger] es[j].0, t),
        },
    decreases es.len(),
{
    if es.len() > 0 {
        let pre = es.drop_last();
        lemma_best_is_first_maximum(pre, t);
        assert(forall|j: int| 0 <= j < pre.len() ==> pre[j] == es[j]);
    }
}

/// The built-in rules, in registration order.
pub open spec fn default_entries() -> Seq<Entry> {
    seq![
        (r"(?i)(?:hey|hi|hello|yo)\s+(?:friday|assistant)"@, IntentKind::Greeting, 95, None),
        (r"(?i)(?:good\s+)?(?:morning|afternoon|evening)\s+friday"@, IntentKind::Greeting, 90, None),
        (r"(?i)what'?s\s+up\s+friday"@, IntentKind::Greeting, 90, None),
        (r"(?i)set\s+(?:a\s+)?timer\s+for\s+(\d+)\s+(second|minute|hour)s?"@, IntentKind::Timer, 90, Some(Extractor::Timer)),
        (r"(?i)(?:remind|alert)\s+me\s+in\s+(\d+)\s+(second|minute|hour)s?"@, IntentKind::Timer, 80, Some(Extractor::Timer)),
        (r"(?i)timer\s+(\d+)\s+(second|minute|hour)s?"@, IntentKind::Timer, 70, Some(Extractor::Timer)),
        (r"(?i)(\d+)\s+(second|minute|hour)\s+timer"@, IntentKind::Timer, 70, Some(Extractor::Timer)),
        (r"(?i)set\s+timer\s+(\d+)"@, IntentKind::Timer, 60, Some(Extractor::Timer)),
        (r"(?i)what'?s\s+the\s+weather\s+(?:like\s+)?(?:in\s+)?(.+)?"@, IntentKind::Weather, 90, Some(Extractor::Weather)),
        (r"(?i)weather\s+(?:in\s+)?(.+)?"@, IntentKind::Weather, 80, Some(Extractor::Weather)),
        (r"(?i)how'?s\s+the\s+weather\s+(?:in\s+)?(.+)?"@, IntentKind::Weather, 80, Some(Extractor::Weather)),
        (r"(?i)is\s+it\s+(?:raining|sunny|cloudy|snowing)\s+(?:in\s+)?(.+)?"@, IntentKind::Weather, 70, Some(Extractor::Weather)),
        (r"(?i)temperature\s+(?:in\s+)?(.+)?"@, IntentKind::Weather, 70, Some(Extractor::Weather)),
        (r"(?i)open\s+(.+)"@, IntentKind::AppLaunch, 90, Some(Extractor::App)),
        (r"(?i)launch\s+(.+)"@, IntentKind::AppLaunch, 90, Some(Extractor::App)),
        (r"(?i)start\s+(.+)"@, IntentKind::AppLaunch, 80, Some(Extractor::App)),
        (r"(?i)run\s+(.+)"@, IntentKind::AppLaunch, 70, Some(Extractor::App)),
        (r"(?i)(?:turn\s+)?volume\s+up"@, IntentKind::SystemControl, 90, Some(Extractor::System)),
        (r"(?i)(?:turn\s+)?volume\s+down"@, IntentKind::SystemControl, 90, Some(Extractor::System)),
        (r"(?i)(?:louder|increase\s+volume)"@, IntentKind::SystemControl, 80, Some(Extractor::System)),
        (r"(?i)(?:quieter|decrease\s+volume|lower\s+volume)"@, IntentKind::SystemControl, 80, Some(Extractor::System)),
        (r"(?i)mute"@, IntentKind::SystemControl, 90, Some(Extractor::System)),
        (r"(?i)unmute"@, IntentKind::SystemControl, 90, Some(Extractor::System)),
        (r"(?i)(?:go\s+to\s+)?sleep"@, IntentKind::SystemControl, 80, Some(Extractor::System)),
        (r"(?i)shutdown|shut\s+down"@, IntentKind::SystemControl, 90, Some(Extractor::System)),
        (r"(?i)restart|reboot"@, IntentKind::SystemControl, 90, Some(Extractor::System)),
        (r"(?i)what\s+is\s+(.+)"@, IntentKind::Query, 70, Some(Extractor::Query)),
        (r"(?i)who\s+is\s+(.+)"@, IntentKind::Query, 70, Some(Extractor::Query)),
        (r"(?i)when\s+(?:is|was|will)\s+(.+)"@, IntentKind::Query, 70, Some(Extractor::Query)),
        (r"(?i)where\s+is\s+(.+)"@, IntentKind::Query, 70, Some(Extractor::Query)),
        (r"(?i)how\s+(?:do\s+(?:i|you)|to)\s+(.+)"@, IntentKind::Query, 70, Some(Extractor::Query)),
        (r"(?i)why\s+(.+)"@, IntentKind::Query, 60, Some(Extractor::Query)),
        (r"(?i)tell\s+me\s+about\s+(.+)"@, IntentKind::Query, 80, Some(Extractor::Query)),    ]
}

struct Rule {
    pattern: Pattern,
    kind: IntentKind,
    confidence: u32,
    extractor: Option<Extractor>,
}

/// The registry entry a rule stands for.
spec fn entry_of(r: Rule) -> Entry {
    (r.pattern.source(), r.kind, r.confidence, r.extractor)
}

/// Pattern-based intent recognition with confidence scoring. Confidences and the threshold
/// are in percent.
pub struct EnhancedNlu {
    rules: Vec<Rule>,
    confidence_threshold: u32,
}

impl EnhancedNlu {
    /// The registry, in registration order.
    pub closed spec fn entries(&self) -> Seq<Entry> {
        self.rules@.map_values(|r: Rule| entry_of(r))
    }

    /// The lowest confidence that is acted on.
    pub closed spec fn threshold(&self) -> u32 {
        self.confidence_threshold
    }

    /// The matcher with the built-in rules and a threshold of 60 percent.
    pub fn new() -> (r: EnhancedNlu)
        ensures
            r.entries() == accepted(default_entries()),
            r.threshold() == 60,
    {
        let table: Vec<(&str, IntentKind, u32, Option<Extractor>)> = vec![
        (r"(?i)(?:hey|hi|hello|yo)\s+(?:friday|assistant)", IntentKind::Greeting, 95, None),
        (r"(?i)(?:good\s+)?(?:morning|afternoon|evening)\s+friday", IntentKind::Greeting, 90, None),
        (r"(?i)what'?s\s+up\s+friday", IntentKind::Greeting, 90, None),
        (r"(?i)set\s+(?:a\s+)?timer\s+for\s+(\d+)\s+(second|minute|hour)s?", IntentKind::Timer, 90, Some(Extractor::Timer)),
        (r"(?i)(?:remind|alert)\s+me\s+in\s+(\d+)\s+(second|minute|hour)s?", IntentKind::Timer, 80, Some(Extractor::Timer)),
        (r"(?i)timer\s+(\d+)\s+(second|minute|hour)s?", IntentKind::Timer, 70, Some(Extractor::Timer)),
        (r"(?i)(\d+)\s+(second|minute|hour)\s+timer", IntentKind::Timer, 70, Some(Extractor::Timer)),
        (r"(?i)set\s+timer\s+(\d+)", IntentKind::Timer, 60, Some(Extractor::Timer)),
        (r"(?i)what'?s\s+the\s+weather\s+(?:like\s+)?(?:in\s+)?(.+)?", IntentKind::Weather, 90, Some(Extractor::Weather)),
        (r"(?i)weather\s+(?:in\s+)?(.+)?", IntentKind::Weather, 80, Some(Extractor::Weather)),
        (r"(?i)how'?s\s+the\s+weather\s+(?:in\s+)?(.+)?", IntentKind::Weather, 80, Some(Extractor::Weather)),
        (r"(?i)is\s+it\s+(?:raining|sunny|cloudy|snowing)\s+(?:in\s+)?(.+)?", IntentKind::Weather, 70, Some(Extractor::Weather)),
        (r"(?i)temperature\s+(?:in\s+)?(.+)?", IntentKind::Weather, 70, Some(Extractor::Weather)),
        (r"(?i)open\s+(.+)", IntentKind::AppLaunch, 90, Some(Extractor::App)),
        (r"(?i)launch\s+(.+)", IntentKind::AppLaunch, 90, Some(Extractor::App)),
        (r"(?i)start\s+(.+)", IntentKind::AppLaunch, 80, Some(Extractor::App)),
        (r"(?i)run\s+(.+)", IntentKind::AppLaunch, 70, Some(Extractor::App)),
        (r"(?i)(?:turn\s+)?volume\s+up", IntentKind::SystemControl, 90, Some(Extractor::System)),
        (r"(?i)(?:turn\s+)?volume\s+down", IntentKind::SystemControl, 90, Some(Extractor::System)),
        (r"(?i)(?:louder|increase\s+volume)", IntentKind::SystemControl, 80, Some(Extractor::System)),
        (r"(?i)(?:quieter|decrease\s+volume|lower\s+volume)", IntentKind::SystemControl, 80, Some(Extractor::System)),
        (r"(?i)mute", IntentKind::SystemControl, 90, Some(Extractor::System)),
        (r"(?i)unmute", IntentKind::SystemControl, 90, Some(Extractor::System)),
        (r"(?i)(?:go\s+to\s+)?sleep", IntentKind::SystemControl, 80, Some(Extractor::System)),
        (r"(?i)shutdown|shut\s+down", IntentKind::SystemControl, 90, Some(Extractor::System)),
        (r"(?i)restart|reboot", IntentKind::SystemControl, 90, Some(Extractor::System)),
        (r"(?i)what\s+is\s+(.+)", IntentKind::Query, 70, Some(Extractor::Query)),
        (r"(?i)who\s+is\s+(.+)", IntentKind::Query, 70, Some(Extractor::Query)),
        (r"(?i)when\s+(?:is|was|will)\s+(.+)", IntentKind::Query, 70, Some(Extractor::Query)),
        (r"(?i)where\s+is\s+(.+)", IntentKind::Query, 70, Some(Extractor::Query)),
        (r"(?i)how\s+(?:do\s+(?:i|you)|to)\s+(.+)", IntentKind::Query, 70, Some(Extractor::Query)),
        (r"(?i)why\s+(.+)", IntentKind::Query, 60, Some(Extractor::Query)),
        (r"(?i)tell\s+me\s+about\s+(.+)", IntentKind::Query, 80, Some(Extractor::Query)),        ];
        let ghost spec_table = default_entries();
        assert(table@.map_values(
            |e: (&str, IntentKind, u32, Option<Extractor>)| (e.0@, e.1, e.2, e.3),
        ) =~= spec_table);
        let mut nlu = EnhancedNlu { rules: Vec::new(), confidence_threshold: 60 };
        let mut i: usize = 0;
        while i < table.len()
            invariant
                i <= table.len(),
                spec_table == table@.map_values(
                    |e: (&str, IntentKind, u32, Option<Extractor>)| (e.0@, e.1, e.2, e.3),
                ),
                nlu.entries() == accepted(spec_table.subrange(0, i as int)),
                nlu.confidence_threshold == 60,
            decreases table.len() - i,
        {
            let (src, kind, confidence, extractor) = table[i];
            let ghost before = nlu.entries();
            assert(spec_table.subrange(0, i + 1).drop_last() =~= spec_table.subrange(0, i as int));
            assert(spec_table[i as int] == (src@, kind, confidence, extractor));
            match Pattern::compile(src) {
                Some(pattern) => {
                    nlu.rules.push(Rule { pattern, kind, confidence, extractor });
                    assert(nlu.entries() =~= before.push(spec_table[i as int]));
                },
                None => {},
            }
            i = i + 1;
        }
        assert(spec_table.subrange(0, table@.len() as int) =~= spec_table);
        nlu
    }

    /// The same matcher with another threshold, in percent.
    pub fn with_confidence_threshold(self, threshold: u32) -> (r: EnhancedNlu)
        ensures
            r.entries() == self.entries(),
            r.threshold() == threshold,
    {
        EnhancedNlu { rules: self.rules, confidence_threshold: threshold }
    }

    /// Runs extractor `ex` on `text`.
    pub fn extract(ex: Option<Extractor>, text: &str) -> (r: IntentParams)
        ensures
            extracted(ex, text@, r),
    {
        let mut p = IntentParams {
            number: None,
            unit: None,
            label: None,
            location: None,
            app_name: None,
            action: None,
            question: None,
        };
        match ex {
            Some(Extractor::Timer) => {
                let num = capture(DURATION_PATTERN, text, 1);
                let unit = capture(DURATION_PATTERN, text, 2);
                if num.is_some() && unit.is_some() {
                    p.number = num;
                    p.unit = unit;
                }
                p.label = capture(LABEL_PATTERN, text, 1);
            },
            Some(Extractor::Weather) => {
                match trim_opt(capture(LOCATION_PATTERN, text, 1)) {
                    Some(l) => {
                        let cs = chars_of(l.as_str());
                        if cs.len() > 1 || (cs.len() == 1 && (cs[0] as u32) >= 0x80) {
                            p.location = Some(l);
                        }
                    },
                    None => {},
                }
            },
            Some(Extractor::App) => {
                p.app_name = trim_opt(capture(APP_PATTERN, text, 1));
            },
            Some(Extractor::System) => {
                let name = system_action_name_exec(&lowercase(text));
                p.action = Some(string_of(&name));
            },
            Some(Extractor::Query) => {
                p.question = trim_opt(capture(QUESTION_PATTERN, text, 1));
            },
            None => {},
        }
        p
    }

    /// The index in the registry of the winning rule for `text`.
    fn best_rule(&self, text: &str) -> (r: Option<usize>)
        ensures
            match r {
                Some(i) => best_in(self.entries(), text@) == Some(i as int),
                None => best_in(self.entries(), text@) is None,
            },
            r matches Some(i) ==> i < self.rules@.len(),
    {
        let mut best: Option<usize> = None;
        let mut i: usize = 0;
        while i < self.rules.len()
            invariant
                i <= self.rules.len(),
                match best_in(self.entries().subrange(0, i as int), text@) {
                    Some(j) => best matches Some(b) && b == j,
                    None => best is None,
                },
                best matches Some(b) ==> b < i,
            decreases self.rules.len() - i,
        {
            let ghost es = self.entries().subrange(0, i + 1);
            assert(es.drop_last() =~= self.entries().subrange(0, i as int));
            assert(es.last() == entry_of(self.rules@[i as int]));
            let hit = self.rules[i].pattern.is_match(text);
            if hit {
                match best {
                    None => {
                        best = Some(i);
                    },
                    Some(b) => {
                        assert(es[b as int] == entry_of(self.rules@[b as int]));
                        if self.rules[i].confidence > self.rules[b].confidence {
                            best = Some(i);
                        }
                    },
                }
            }
            i = i + 1;
        }
        assert(self.entries().subrange(0, self.rules@.len() as int) =~= self.entries());
        best
    }

    /// Evaluates every rule on `text` and returns the winner's kind, its confidence and the
    /// parameters its extractor finds; nothing when no rule matches.
    pub fn match_patterns(&self, text: &str) -> (r: Option<(IntentKind, u32, IntentParams)>)
        ensures
            match best_in(self.entries(), text@) {
                Some(i) => r matches Some((k, c, p)) && k == self.entries()[i].1 && c
                    == self.entries()[i].2 && extracted(self.entries()[i].3, text@, p),
                None => r is None,
            },
    {
        match self.best_rule(text) {
            Some(i) => {
                let rule = &self.rules[i];
                assert(self.entries()[i as int] == entry_of(self.rules@[i as int]));
                let params = EnhancedNlu::extract(rule.extractor, text);
                Some((rule.kind, rule.confidence, params))
            },
            None => None,
        }
    }

    /// Builds the intent of kind `kind` from extracted parameters.
    pub fn build_enhanced_intent(&self, kind: IntentKind, params: IntentParams) -> (r:
        EnhancedIntent)
        ensures
            built(kind, params, r),
    {
        match kind {
            IntentKind::Greeting => EnhancedIntent::Greeting { user_name: None },
            IntentKind::Timer => {
                let duration_secs = match (&params.number, &params.unit) {
                    (Some(num), Some(unit)) => match parse_u64(&chars_of(num.as_str())) {
                        Some(n) => {
                            let u = chars_of(unit.as_str());
                            if is_text(&u, "minute") {
                                sat_mul(n, 60)
                            } else if is_text(&u, "hour") {
                                sat_mul(n, 3600)
                            } else {
                                n
                            }
                        },
                        None => 10,
                    },
                    _ => 10,
                };
                EnhancedIntent::Timer { duration_secs, label: params.label }
            },
            IntentKind::Weather => EnhancedIntent::Weather { location: params.location },
            IntentKind::AppLaunch => EnhancedIntent::AppLaunch {
                app_name: match params.app_name {
                    Some(a) => a,
                    None => string_of(&chars_of("unknown")),
                },
            },
            IntentKind::SystemControl => {
                let action = match &params.action {
                    Some(a) => {
                        let n = chars_of(a.as_str());
                        if is_text(&n, "volume_down") {
                            SystemAction::VolumeDown
                        } else if is_text(&n, "mute") {
                            SystemAction::Mute
                        } else if is_text(&n, "unmute") {
                            SystemAction::Unmute
                        } else if is_text(&n, "sleep") {
                            SystemAction::Sleep
                        } else if is_text(&n, "shutdown") {
                            SystemAction::Shutdown
                        } else if is_text(&n, "restart") {
                            SystemAction::Restart
                        } else {
                            SystemAction::VolumeUp
                        }
                    },
                    None => SystemAction::VolumeUp,
                };
                EnhancedIntent::SystemControl { action }
            },
            IntentKind::Query => EnhancedIntent::Query {
                question: match params.question {
                    Some(q) => q,
                    None => string_of(&chars_of("unknown")),
                },
            },
        }
    }

    /// Classifies `text`: the winning rule's intent when its confidence reaches the
    /// threshold, and `Unknown` carrying the text otherwise or when nothing matches.
    pub fn parse_intent(&self, text: &str) -> (r: Intent)
        ensures
            ({
                let b = best_in(self.entries(), text@);
                if b is Some && self.entries()[b->0].2 >= self.threshold() {
                    parsed(self.entries()[b->0].1, self.entries()[b->0].3, text@, r)
                } else {
                    r matches Intent::Unknown { text: t } && t@ == text@
                }
            }),
    {
        match self.match_patterns(text) {
            Some((kind, confidence, params)) => {
                if confidence >= self.confidence_threshold {
                    let e = self.build_enhanced_intent(kind, params);
                    match e {
                        EnhancedIntent::Greeting { user_name } => Intent::Greeting { user_name },
                        EnhancedIntent::Timer { duration_secs, .. } => Intent::Timer {
                            duration_secs,
                        },
                        EnhancedIntent::Weather { location } => Intent::Weather { location },
                        EnhancedIntent::AppLaunch { app_name } => Intent::AppLaunch { app_name },
                        EnhancedIntent::Query { question } => Intent::Query { question },
                        EnhancedIntent::SystemControl { action } => Intent::SystemControl {
                            action,
                        },
                        EnhancedIntent::Unknown { .. } => Intent::Unknown {
                            text: string_of(&chars_of(text)),
                        },
                    }
                } else {
                    Intent::Unknown { text: string_of(&chars_of(text)) }
                }
            },
            None => Intent::Unknown { text: string_of(&chars_of(text)) },
        }
    }
}


impl NluEngine for EnhancedNlu {
    fn parse_intent(&self, text: &str) -> Intent {
        EnhancedNlu::parse_intent(self, text)
    }
}

/// The name of the system action that the lower-case utterance `l` asks for.
fn system_action_name_exec(l: &Vec<char>) -> (r: Vec<char>)
    ensures
        r@ == system_action_name(l@),
{
    if contains(l, &chars_of("volume up")) || contains(l, &chars_of("louder")) || contains(
        l,
        &chars_of("increase"),
    ) {
        chars_of("volume_up")
    } else if contains(l, &chars_of("volume down")) || contains(l, &chars_of("quieter"))
        || contains(l, &chars_of("decrease")) || contains(l, &chars_of("lower")) {
        chars_of("volume_down")
    } else if contains(l, &chars_of("mute")) && !contains(l, &chars_of("unmute")) {
        chars_of("mute")
    } else if contains(l, &chars_of("unmute")) {
        chars_of("unmute")
    } else if contains(l, &chars_of("sleep")) {
        chars_of("sleep")
    } else if contains(l, &chars_of("shutdown")) || contains(l, &chars_of("shut down")) {
        chars_of("shutdown")
    } else if contains(l, &chars_of("restart")) || contains(l, &chars_of("reboot")) {
        chars_of("restart")
    } else {
        chars_of("unknown")
    }
}

} // verus!
