//! The values that flow through one assistant session: intents, progress events and
//! stage errors, plus the two simplest intent source and executor.
use crate::text::{
    cat,
    chars_of, contains, contains_seq, decimal, decimal_exec, parse_u64, parse_u64_spec, push_all, sat_mul, sat_mul_spec,
    split_words, string_of, lowercase, lower_of, to_ascii_lower, ascii_lower, views, words,
};
use vstd::prelude::*;

verus! {

/// One piece of a transcript, possibly not yet final.
pub struct TranscriptFragment {
    pub text: String,
    pub is_final: bool,
}

/// A system-control action.
#[derive(Clone, Copy, Debug, PartialEq, Eq, Structural)]
pub enum SystemAction {
    VolumeUp,
    VolumeDown,
    Mute,
    Unmute,
    Sleep,
    Shutdown,
    Restart,
}

/// The typed meaning of one utterance.
pub enum Intent {
    Timer { duration_secs: u64 },
    Greeting { user_name: Option<String> },
    Weather { location: Option<String> },
    AppLaunch { app_name: String },
    Query { question: String },
    SystemControl { action: SystemAction },
    Unknown { text: String },
}

/// A progress or result event published on the event bus.
pub enum EngineEvent {
    WakeDetected,
    PartialTranscript(TranscriptFragment),
    FinalTranscript(String),
    TtsStarted,
    TtsFinished,
    IntentRecognized(Intent),
    ExecutionStarted(String),
    ExecutionFinished(String),
    Notification(String),
}

/// The failure of one pipeline stage, with a message.
pub enum EngineError {
    Audio(String),
    Wake(String),
    Asr(String),
    Tts(String),
}


impl EngineError {
    /// A one-line description of the error.
    pub fn describe(&self) -> (r: String)
        ensures
            r@ == match self {
                EngineError::Audio(m) => "audio error: "@ + m@,
                EngineError::Wake(m) => "wake error: "@ + m@,
                EngineError::Asr(m) => "asr error: "@ + m@,
                EngineError::Tts(m) => "tts error: "@ + m@,
            },
    {
        match self {
            EngineError::Audio(m) => cat("audio error: ", m.as_str()),
            EngineError::Wake(m) => cat("wake error: ", m.as_str()),
            EngineError::Asr(m) => cat("asr error: ", m.as_str()),
            EngineError::Tts(m) => cat("tts error: ", m.as_str()),
        }
    }
}

/// A copy of an optional string.
pub fn copy_opt(o: &Option<String>) -> (r: Option<String>)
    ensures
        r == *o,
{
    match o {
        Some(s) => Some(s.clone()),
        None => None,
    }
}

impl Intent {
    /// A copy of this intent.
    pub fn copy(&self) -> (r: Intent)
        ensures
            r == *self,
    {
        match self {
            Intent::Timer { duration_secs } => Intent::Timer { duration_secs: *duration_secs },
            Intent::Greeting { user_name } => Intent::Greeting { user_name: copy_opt(user_name) },
            Intent::Weather { location } => Intent::Weather { location: copy_opt(location) },
            Intent::AppLaunch { app_name } => Intent::AppLaunch { app_name: app_name.clone() },
            Intent::Query { question } => Intent::Query { question: question.clone() },
            Intent::SystemControl { action } => Intent::SystemControl { action: *action },
            Intent::Unknown { text } => Intent::Unknown { text: text.clone() },
        }
    }
}

/// A line printed by a keyword-spotting process reports a detection: in ASCII lower case it
/// holds `detected`.
pub open spec fn reports_detection(line: Seq<char>) -> bool {
    contains_seq(ascii_lower(line), "detected"@) || contains_seq(
        ascii_lower(line),
        "wake word detected"@,
    ) || contains_seq(ascii_lower(line), "keyword detected"@)
}

/// Whether a line of keyword-spotter output reports a detection.
pub fn porcupine_line_has_detection(line: &str) -> (r: bool)
    ensures
        r == reports_detection(line@),
{
    let l = to_ascii_lower(&chars_of(line));
    contains(&l, &chars_of("detected")) || contains(&l, &chars_of("wake word detected"))
        || contains(&l, &chars_of("keyword detected"))
}

/// The first word of `ws` that reads as a `u64`, if any.
pub open spec fn first_number(ws: Seq<Seq<char>>) -> Option<u64>
    decreases ws.len(),
{
    if ws.len() == 0 {
        None
    } else if parse_u64_spec(ws[0]) is Some {
        parse_u64_spec(ws[0])
    } else {
        first_number(ws.drop_first())
    }
}

/// The first word of `ws` that reads as a `u64`.
pub fn first_number_exec(ws: &Vec<Vec<char>>) -> (r: Option<u64>)
    ensures
        r == first_number(views(ws@)),
{
    let mut i: usize = 0;
    assert(views(ws@).subrange(0, ws@.len() as int) =~= views(ws@));
    while i < ws.len()
        invariant
            i <= ws.len(),
            first_number(views(ws@).subrange(i as int, ws@.len() as int)) == first_number(
                views(ws@),
            ),
        decreases ws.len() - i,
    {
        let ghost rest = views(ws@).subrange(i as int, ws@.len() as int);
        assert(rest.drop_first() =~= views(ws@).subrange(i + 1, ws@.len() as int));
        assert(rest[0] == ws@[i as int]@);
        let n = parse_u64(&ws[i]);
        if n.is_some() {
            return n;
        }
        i = i + 1;
    }
    assert(views(ws@).subrange(i as int, ws@.len() as int) =~= Seq::<Seq<char>>::empty());
    None
}

/// The naive intent source: an utterance (already in lower case) that mentions a timer or a
/// reminder is a timer whose length is the first number, read as minutes when `minute`
/// occurs and as seconds otherwise (one minute or ten seconds when there is no number);
/// anything else is unknown.
pub open spec fn simple_timer_secs(lower: Seq<char>) -> u64 {
    let n = first_number(words(lower));
    if contains_seq(lower, "minute"@) {
        match n {
            Some(v) => sat_mul_spec(v, 60),
            None => 60,
        }
    } else {
        match n {
            Some(v) => v,
            None => 10,
        }
    }
}

/// A naive intent source with no pattern registry.
pub struct SimpleNlu;

impl SimpleNlu {
    /// Parses `text`: the rules of `parse_lowered` applied to its lower-case form.
    pub fn parse_intent(&self, text: &str) -> (r: Intent)
        ensures
            ({
                let lower = lower_of(text@);
                &&& (contains_seq(lower, "timer"@) || contains_seq(lower, "remind"@)) ==> r
                    == (Intent::Timer { duration_secs: simple_timer_secs(lower) })
                &&& !(contains_seq(lower, "timer"@) || contains_seq(lower, "remind"@)) ==> (r matches Intent::Unknown { text: t } && t@ == text@)
            }),
    {
        let lower = string_of(&lowercase(text));
        SimpleNlu::parse_lowered(text, lower.as_str())
    }

    /// Parses `text`, given its lower-case form `lower`.
    pub fn parse_lowered(text: &str, lower: &str) -> (r: Intent)
        ensures
            (contains_seq(lower@, "timer"@) || contains_seq(lower@, "remind"@)) ==> r
                == (Intent::Timer { duration_secs: simple_timer_secs(lower@) }),
            !(contains_seq(lower@, "timer"@) || contains_seq(lower@, "remind"@)) ==> (r matches Intent::Unknown { text: t } && t@ == text@),
    {
        let l = chars_of(lower);
        if contains(&l, &chars_of("timer")) || contains(&l, &chars_of("remind")) {
            let ws = split_words(&l);
            let num = first_number_exec(&ws);
            let seconds = if contains(&l, &chars_of("minute")) {
                match num {
                    Some(v) => sat_mul(v, 60),
                    None => 60,
                }
            } else {
                match num {
                    Some(v) => v,
                    None => 10,
                }
            };
            return Intent::Timer { duration_secs: seconds };
        }
        Intent::Unknown { text: string_of(&chars_of(text)) }
    }
}


/// A source of intents for free text.
pub trait NluEngine {
    fn parse_intent(&self, text: &str) -> Intent;
}

impl NluEngine for SimpleNlu {
    fn parse_intent(&self, text: &str) -> Intent {
        SimpleNlu::parse_intent(self, text)
    }
}

/// A wake detector that signals after a short pause.
pub struct MockWake;

/// A speech recogniser that replays a fixed utterance.
pub struct MockAsr;

/// A speech synthesiser that only reports start and end.
pub struct MockTts;

/// Speech recognition by an external whisper.cpp process on a recorded file.
pub struct WhisperAsr {
    pub whisper_bin: String,
    pub model_path: String,
    pub audio_wav: String,
}

/// Speech synthesis by an external piper process.
pub struct PiperTts {
    pub piper_bin: String,
    pub model_path: String,
    pub output_wav: Option<String>,
}

impl MockAsr {
    /// The partial transcripts the mock reports, in order; the last is also the final text.
    pub fn partials() -> (r: Vec<String>)
        ensures
            r@.len() == 3,
            r@[0]@ == "hello"@,
            r@[1]@ == "hello there"@,
            r@[2]@ == "hello there assistant"@,
    {
        vec![
            string_of(&chars_of("hello")),
            string_of(&chars_of("hello there")),
            string_of(&chars_of("hello there assistant")),
        ]
    }
}

/// What an executor asks its runner to do for one intent: events to publish now, the spoken
/// response, and events to publish once a delay has passed.
pub struct ExecutionPlan {
    pub immediate: Vec<EngineEvent>,
    pub response: String,
    pub delay_secs: Option<u64>,
    pub delayed: Vec<EngineEvent>,
}

/// "Timer set for N seconds".
pub open spec fn timer_set_message(secs: u64) -> Seq<char> {
    "Timer set for "@ + decimal(secs as nat) + " seconds"@
}

/// The message for a timer of `secs` seconds.
pub fn timer_set_text(secs: u64) -> (r: String)
    ensures
        r@ == timer_set_message(secs),
{
    let mut v = chars_of("Timer set for ");
    push_all(&mut v, &decimal_exec(secs));
    push_all(&mut v, &chars_of(" seconds"));
    string_of(&v)
}

/// The default executor: a timer starts at once and finishes after its duration; any other
/// intent is acknowledged.
pub struct SimpleExecutor;

impl SimpleExecutor {
    pub fn plan(intent: &Intent) -> (r: ExecutionPlan)
        ensures
            match *intent {
                Intent::Timer { duration_secs } => r.response@ == timer_set_message(
                    duration_secs,
                ) && r.immediate@.len() == 1 && (r.immediate@[0] matches EngineEvent::ExecutionStarted(n) && n@ == "timer"@)
                    && r.delay_secs == Some(duration_secs) && r.delayed@.len() == 2
                    && (r.delayed@[0] matches EngineEvent::Notification(m) && m@ == "Timer done"@)
                    && (r.delayed@[1] matches EngineEvent::ExecutionFinished(n) && n@ == "timer"@),
                _ => r.response@ == "Okay."@ && r.immediate@.len() == 0 && r.delay_secs is None
                    && r.delayed@.len() == 0,
            },
    {
        match intent {
            Intent::Timer { duration_secs } => {
                let secs = *duration_secs;
                ExecutionPlan {
                    immediate: vec![EngineEvent::ExecutionStarted(string_of(&chars_of("timer")))],
                    response: timer_set_text(secs),
                    delay_secs: Some(secs),
                    delayed: vec![
                        EngineEvent::Notification(string_of(&chars_of("Timer done"))),
                        EngineEvent::ExecutionFinished(string_of(&chars_of("timer"))),
                    ],
                }
            },
            _ => ExecutionPlan {
                immediate: Vec::new(),
                response: string_of(&chars_of("Okay.")),
                delay_secs: None,
                delayed: Vec::new(),
            },
        }
    }
}

} // verus!
