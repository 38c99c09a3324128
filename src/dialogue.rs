//! The Dialogue Manager: per-session multi-turn slot filling, with bounded history, idle
//! expiry and a ceiling on the number of sessions.
use crate::text::{
    ascii_lower, cat, chars_of, contains, contains_seq, decimal, decimal_exec, join_from,
    join_words, lower_of, lowercase, parse_u64, parse_u64_spec, push_all, same_chars,
    split_words, string_of, to_ascii_lower, trim, trim_exec, views, words, sat_mul, sat_mul_spec,
};
use crate::engine::{copy_opt, Intent};
use crate::vad::{capped, elapsed};
use vstd::prelude::*;

verus! {

/// A slot an intent can ask for.
#[derive(Clone, Copy, Debug, PartialEq, Eq, Structural)]
pub enum Slot {
    Duration,
    Label,
    Location,
}

/// The kinds of intent that take part in a conversation.
#[derive(Clone, Copy, Debug, PartialEq, Eq, Structural)]
pub enum DialogueKind {
    Timer,
    Weather,
}

/// A unit of time.
#[derive(Clone, Copy, Debug, PartialEq, Eq, Structural)]
pub enum TimeUnit {
    Second,
    Minute,
    Hour,
}

/// A duration as spoken: an amount and a unit.
#[derive(Clone, Copy, Debug, PartialEq, Eq, Structural)]
pub struct SpokenDuration {
    pub amount: u64,
    pub unit: TimeUnit,
}

/// An intent being completed over several turns.
pub struct ActiveIntent {
    pub kind: DialogueKind,
    pub duration: Option<SpokenDuration>,
    pub label: Option<String>,
    pub location: Option<String>,
    pub missing: Vec<Slot>,
}

/// The mathematical form of an active intent.
pub struct ActiveView {
    pub kind: DialogueKind,
    pub duration: Option<SpokenDuration>,
    pub label: Option<Seq<char>>,
    pub location: Option<Seq<char>>,
    pub missing: Seq<Slot>,
}

/// The characters of an optional string.
pub open spec fn opt_view(o: Option<String>) -> Option<Seq<char>> {
    match o {
        Some(s) => Some(s@),
        None => None,
    }
}

impl View for ActiveIntent {
    type V = ActiveView;

    open spec fn view(&self) -> ActiveView {
        ActiveView {
            kind: self.kind,
            duration: self.duration,
            label: opt_view(self.label),
            location: opt_view(self.location),
            missing: self.missing@,
        }
    }
}

/// The mathematical form of an optional active intent.
pub open spec fn active_view(a: Option<ActiveIntent>) -> Option<ActiveView> {
    match a {
        Some(x) => Some(x@),
        None => None,
    }
}

/// The slots a kind needs before it can run, in asking order.
pub open spec fn required_slots(k: DialogueKind) -> Seq<Slot> {
    match k {
        DialogueKind::Timer => seq![Slot::Duration],
        DialogueKind::Weather => seq![Slot::Location],
    }
}

/// The kind an utterance asks for: in lower case it mentions a timer or the weather.
pub open spec fn detect_kind(u: Seq<char>) -> Option<DialogueKind> {
    if contains_seq(lower_of(u), "timer"@) {
        Some(DialogueKind::Timer)
    } else if contains_seq(lower_of(u), "weather"@) {
        Some(DialogueKind::Weather)
    } else {
        None
    }
}

/// The unit a word (in ASCII lower case) names, singular or plural.
pub open spec fn unit_of(w: Seq<char>) -> Option<TimeUnit> {
    if w == "second"@ || w == "seconds"@ {
        Some(TimeUnit::Second)
    } else if w == "minute"@ || w == "minutes"@ {
        Some(TimeUnit::Minute)
    } else if w == "hour"@ || w == "hours"@ {
        Some(TimeUnit::Hour)
    } else {
        None
    }
}

/// The first number word followed by a unit word.
pub open spec fn duration_in(ws: Seq<Seq<char>>) -> Option<SpokenDuration>
    decreases ws.len(),
{
    if ws.len() < 2 {
        None
    } else if parse_u64_spec(ws[0]) is Some && unit_of(ascii_lower(ws[1])) is Some {
        Some(SpokenDuration { amount: parse_u64_spec(ws[0])->0, unit: unit_of(ascii_lower(ws[1]))->0 })
    } else {
        duration_in(ws.drop_first())
    }
}

/// The words after the first word that is, in ASCII lower case, one of `keys`, joined by
/// spaces, when there are any.
pub open spec fn words_after(ws: Seq<Seq<char>>, keys: Seq<Seq<char>>) -> Option<Seq<char>>
    decreases ws.len(),
{
    if ws.len() == 0 {
        None
    } else if keys.contains(ascii_lower(ws[0])) {
        if ws.len() > 1 {
            Some(join_words(ws.drop_first()))
        } else {
            None
        }
    } else {
        words_after(ws.drop_first(), keys)
    }
}

/// A timer's label: what follows `called` or `named`.
pub open spec fn label_in(u: Seq<char>) -> Option<Seq<char>> {
    words_after(words(u), seq!["called"@, "named"@])
}

/// A place: what follows `in`.
pub open spec fn location_in(u: Seq<char>) -> Option<Seq<char>> {
    words_after(words(u), seq!["in"@])
}

/// The whole utterance as free text, when it is not blank.
pub open spec fn free_text(u: Seq<char>) -> Option<Seq<char>> {
    if trim(u).len() > 0 {
        Some(trim(u))
    } else {
        None
    }
}

/// The slots of `k` that are still missing, in asking order.
pub open spec fn missing_after(k: DialogueKind, d: Option<SpokenDuration>, l: Option<Seq<char>>) -> Seq<Slot> {
    match k {
        DialogueKind::Timer => if d is Some {
            Seq::empty()
        } else {
            seq![Slot::Duration]
        },
        DialogueKind::Weather => if l is Some {
            Seq::empty()
        } else {
            seq![Slot::Location]
        },
    }
}

/// The intent of kind `k` with every slot the first utterance supplies.
pub open spec fn initial(k: DialogueKind, u: Seq<char>) -> ActiveView {
    let d = if k == DialogueKind::Timer {
        duration_in(words(u))
    } else {
        None
    };
    let lab = if k == DialogueKind::Timer {
        label_in(u)
    } else {
        None
    };
    let loc = if k == DialogueKind::Weather {
        location_in(u)
    } else {
        None
    };
    ActiveView { kind: k, duration: d, label: lab, location: loc, missing: missing_after(k, d, loc) }
}

/// The singular name of a unit.
pub open spec fn unit_word(u: TimeUnit) -> Seq<char> {
    match u {
        TimeUnit::Second => "second"@,
        TimeUnit::Minute => "minute"@,
        TimeUnit::Hour => "hour"@,
    }
}

/// "5 minutes", "1 hour".
pub open spec fn duration_words(d: SpokenDuration) -> Seq<char> {
    decimal(d.amount as nat) + " "@ + unit_word(d.unit) + if d.amount == 1 {
        Seq::empty()
    } else {
        "s"@
    }
}

/// What is said once an intent has all its slots.
pub open spec fn completion(a: ActiveView) -> Seq<char> {
    match a.kind {
        DialogueKind::Timer => {
            let base = "Timer set for "@ + match a.duration {
                Some(d) => duration_words(d),
                None => Seq::empty(),
            };
            match a.label {
                Some(l) => base + ": "@ + l,
                None => base,
            }
        },
        DialogueKind::Weather => "Checking the weather in "@ + match a.location {
            Some(l) => l,
            None => Seq::empty(),
        },
    }
}

/// The question that asks for a slot.
pub open spec fn prompt(s: Slot) -> Seq<char> {
    match s {
        Slot::Duration => "How long should the timer be?"@,
        Slot::Location => "Which location do you want the weather for?"@,
        Slot::Label => "What should the timer be called?"@,
    }
}

/// The answer to an utterance that names no known intent.
pub open spec fn not_understood() -> Seq<char> {
    "I didn't understand that. Can you try again?"@
}

/// The prompt repeated after an answer that did not fill the slot.
pub open spec fn reprompt(s: Slot) -> Seq<char> {
    "Sorry, I didn't understand. "@ + prompt(s)
}

/// `a` with slot `s` filled from utterance `u`, when `u` supplies it.
pub open spec fn fill(a: ActiveView, s: Slot, u: Seq<char>) -> Option<ActiveView> {
    match s {
        Slot::Duration => match duration_in(words(u)) {
            Some(d) => Some(ActiveView { duration: Some(d), ..a }),
            None => None,
        },
        Slot::Location => match free_text(u) {
            Some(l) => Some(ActiveView { location: Some(l), ..a }),
            None => None,
        },
        Slot::Label => match free_text(u) {
            Some(l) => Some(ActiveView { label: Some(l), ..a }),
            None => None,
        },
    }
}

/// What the reply to a new state is: the completion when nothing is missing, else the
/// prompt for the first missing slot.
pub open spec fn settle(a: ActiveView) -> (Option<ActiveView>, Seq<char>, bool) {
    if a.missing.len() == 0 {
        (None, completion(a), false)
    } else {
        (Some(a), prompt(a.missing[0]), true)
    }
}

/// One conversational turn: from the active intent (if any) and the utterance, the next
/// active intent, the reply, and whether more input is needed.
pub open spec fn turn(active: Option<ActiveView>, u: Seq<char>) -> (Option<ActiveView>, Seq<char>, bool) {
    match active {
        Some(a) => if a.missing.len() == 0 {
            settle(a)
        } else {
            match fill(a, a.missing[0], u) {
                Some(b) => settle(ActiveView { missing: a.missing.drop_first(), ..b }),
                None => (Some(a), reprompt(a.missing[0]), true),
            }
        },
        None => match detect_kind(u) {
            Some(k) => settle(initial(k, u)),
            None => (None, not_understood(), false),
        },
    }
}

/// An utterance that names an intent and supplies every slot it requires is answered
/// without a prompt, and leaves no conversation open.
pub proof fn lemma_complete_utterance_needs_no_prompt(u: Seq<char>)
    requires
        detect_kind(u) is Some,
        detect_kind(u) == Some(DialogueKind::Timer) ==> duration_in(words(u)) is Some,
        detect_kind(u) == Some(DialogueKind::Weather) ==> location_in(u) is Some,
    ensures
        !turn(None, u).2,
        turn(None, u).0 is None,
{
}

/// An utterance that names an intent but lacks its required slot is answered with that
/// slot's prompt, once; a follow-up that supplies the slot completes the intent with no
/// further prompt.
pub proof fn lemma_missing_slot_prompts_once(u1: Seq<char>, u2: Seq<char>)
    requires
        detect_kind(u1) is Some,
        detect_kind(u1) == Some(DialogueKind::Timer) ==> duration_in(words(u1)) is None
            && duration_in(words(u2)) is Some,
        detect_kind(u1) == Some(DialogueKind::Weather) ==> location_in(u1) is None
            && free_text(u2) is Some,
    ensures
        turn(None, u1).2,
        turn(None, u1).1 == prompt(required_slots(detect_kind(u1)->0)[0]),
        !turn(turn(None, u1).0, u2).2,
        turn(turn(None, u1).0, u2).0 is None,
{
    let k = detect_kind(u1)->0;
    let a = initial(k, u1);
    assert(a.missing =~= required_slots(k));
    assert(a.missing.drop_first() =~= Seq::<Slot>::empty());
}

/// An open intent waits for at least one slot, and its missing slots are exactly its
/// required slots that are not filled, in asking order.
pub open spec fn active_ok(a: ActiveView) -> bool {
    a.missing.len() > 0 && a.missing == missing_after(a.kind, a.duration, a.location)
}

/// A turn keeps the open intent well formed.
pub proof fn lemma_turn_keeps_active_ok(active: Option<ActiveView>, u: Seq<char>)
    requires
        active matches Some(a) ==> active_ok(a),
    ensures
        turn(active, u).0 matches Some(b) ==> active_ok(b),
{
    match active {
        Some(a) => {
            assert(a.missing.len() == 1);
            assert(a.missing.drop_first().len() == 0);
        },
        None => {},
    }
}

/// The intent that is complete in state `a`, if nothing is missing.
pub open spec fn finished(a: ActiveView) -> Option<ActiveView> {
    if a.missing.len() == 0 {
        Some(a)
    } else {
        None
    }
}

/// The intent that one turn completes, if any: the counterpart of `turn`.
pub open spec fn turn_done(active: Option<ActiveView>, u: Seq<char>) -> Option<ActiveView> {
    match active {
        Some(a) => if a.missing.len() == 0 {
            finished(a)
        } else {
            match fill(a, a.missing[0], u) {
                Some(b) => finished(ActiveView { missing: a.missing.drop_first(), ..b }),
                None => None,
            }
        },
        None => match detect_kind(u) {
            Some(k) => finished(initial(k, u)),
            None => None,
        },
    }
}

/// The reply to one turn, with the intent it completed, which is then ready to run.
pub struct DialogueResponse {
    pub text: String,
    pub needs_more_input: bool,
    pub completed: Option<ActiveIntent>,
}

fn unit_of_exec(w: &Vec<char>) -> (r: Option<TimeUnit>)
    ensures
        r == unit_of(w@),
{
    if same_chars(w, &chars_of("second")) || same_chars(w, &chars_of("seconds")) {
        Some(TimeUnit::Second)
    } else if same_chars(w, &chars_of("minute")) || same_chars(w, &chars_of("minutes")) {
        Some(TimeUnit::Minute)
    } else if same_chars(w, &chars_of("hour")) || same_chars(w, &chars_of("hours")) {
        Some(TimeUnit::Hour)
    } else {
        None
    }
}

/// Reads a spoken duration from `text`: a number word followed by a unit word.
pub fn parse_duration(text: &str) -> (r: Option<SpokenDuration>)
    ensures
        r == duration_in(words(text@)),
{
    let ws = split_words(&chars_of(text));
    let mut i: usize = 0;
    assert(views(ws@).subrange(0, ws@.len() as int) =~= views(ws@));
    while ws.len() > 1 && i < ws.len() - 1
        invariant
            i <= ws@.len(),
            views(ws@) == words(text@),
            duration_in(views(ws@).subrange(i as int, ws@.len() as int)) == duration_in(views(ws@)),
        decreases ws@.len() - i,
    {
        let ghost rest = views(ws@).subrange(i as int, ws@.len() as int);
        assert(rest.drop_first() =~= views(ws@).subrange(i + 1, ws@.len() as int));
        assert(rest[0] == ws@[i as int]@);
        assert(rest[1] == ws@[i + 1]@);
        match parse_u64(&ws[i]) {
            Some(amount) => match unit_of_exec(&to_ascii_lower(&ws[i + 1])) {
                Some(unit) => {
                    return Some(SpokenDuration { amount, unit });
                },
                None => {},
            },
            None => {},
        }
        i = i + 1;
    }
    None
}

/// The words after the first key word, joined by spaces.
fn words_after_exec(ws: &Vec<Vec<char>>, k1: &str, k2: &str) -> (r: Option<Vec<char>>)
    ensures
        ({
            let keys = if k1@ == k2@ {
                seq![k1@]
            } else {
                seq![k1@, k2@]
            };
            match r {
                Some(v) => words_after(views(ws@), keys) == Some(v@),
                None => words_after(views(ws@), keys) is None,
            }
        }),
{
    let ghost keys = if k1@ == k2@ {
        seq![k1@]
    } else {
        seq![k1@, k2@]
    };
    let a = chars_of(k1);
    let b = chars_of(k2);
    let mut i: usize = 0;
    assert(views(ws@).subrange(0, ws@.len() as int) =~= views(ws@));
    while i < ws.len()
        invariant
            i <= ws@.len(),
            a@ == k1@,
            b@ == k2@,
            keys == (if k1@ == k2@ {
                seq![k1@]
            } else {
                seq![k1@, k2@]
            }),
            words_after(views(ws@).subrange(i as int, ws@.len() as int), keys) == words_after(
                views(ws@),
                keys,
            ),
        decreases ws@.len() - i,
    {
        let ghost rest = views(ws@).subrange(i as int, ws@.len() as int);
        assert(rest.drop_first() =~= views(ws@).subrange(i + 1, ws@.len() as int));
        assert(rest[0] == ws@[i as int]@);
        let w = to_ascii_lower(&ws[i]);
        let hit = same_chars(&w, &a) || same_chars(&w, &b);
        assert(hit == keys.contains(ascii_lower(rest[0]))) by {
            if hit {
                if w@ == k1@ {
                    assert(keys[0] == k1@);
                } else {
                    assert(keys[keys.len() - 1] == k2@);
                }
            } else {
                if keys.contains(ascii_lower(rest[0])) {
                    let j = choose|j: int| 0 <= j < keys.len() && keys[j] == ascii_lower(rest[0]);
                    assert(keys[j] == k1@ || keys[j] == k2@);
                }
            }
        };
        if hit {
            if i + 1 < ws.len() {
                return Some(join_from(ws, i + 1));
            } else {
                return None;
            }
        }
        i = i + 1;
    }
    None
}

/// Fills what the first utterance of a new intent supplies.
fn start_intent(k: DialogueKind, u: &str) -> (r: ActiveIntent)
    ensures
        r@ == initial(k, u@),
{
    let ws = split_words(&chars_of(u));
    match k {
        DialogueKind::Timer => {
            proof {
                reveal_strlit("called");
                reveal_strlit("named");
                assert("called"@.len() != "named"@.len());
            }
            let d = parse_duration(u);
            let lab = match words_after_exec(&ws, "called", "named") {
                Some(v) => Some(string_of(&v)),
                None => None,
            };
            let missing = if d.is_some() {
                Vec::new()
            } else {
                vec![Slot::Duration]
            };
            let r = ActiveIntent { kind: k, duration: d, label: lab, location: None, missing };
            assert(r.missing@ =~= missing_after(k, d, None));
            r
        },
        DialogueKind::Weather => {
            let loc = match words_after_exec(&ws, "in", "in") {
                Some(v) => Some(string_of(&v)),
                None => None,
            };
            let missing = if loc.is_some() {
                Vec::new()
            } else {
                vec![Slot::Location]
            };
            let r = ActiveIntent { kind: k, duration: None, label: None, location: loc, missing };
            assert(r.missing@ =~= missing_after(k, None, opt_view(loc)));
            r
        },
    }
}

/// The text of a spoken duration.
fn duration_text(d: SpokenDuration) -> (r: Vec<char>)
    ensures
        r@ == duration_words(d),
{
    let mut v = decimal_exec(d.amount);
    push_all(&mut v, &chars_of(" "));
    match d.unit {
        TimeUnit::Second => push_all(&mut v, &chars_of("second")),
        TimeUnit::Minute => push_all(&mut v, &chars_of("minute")),
        TimeUnit::Hour => push_all(&mut v, &chars_of("hour")),
    }
    if d.amount != 1 {
        push_all(&mut v, &chars_of("s"));
    } else {
        assert(v@ =~= v@ + Seq::<char>::empty());
    }
    v
}

fn completion_text(a: &ActiveIntent) -> (r: String)
    ensures
        r@ == completion(a@),
{
    match a.kind {
        DialogueKind::Timer => {
            let mut v = chars_of("Timer set for ");
            match a.duration {
                Some(d) => push_all(&mut v, &duration_text(d)),
                None => {
                    assert(v@ =~= v@ + Seq::<char>::empty());
                },
            }
            match &a.label {
                Some(l) => {
                    push_all(&mut v, &chars_of(": "));
                    push_all(&mut v, &chars_of(l.as_str()));
                },
                None => {},
            }
            string_of(&v)
        },
        DialogueKind::Weather => {
            let mut v = chars_of("Checking the weather in ");
            match &a.location {
                Some(l) => push_all(&mut v, &chars_of(l.as_str())),
                None => {
                    assert(v@ =~= v@ + Seq::<char>::empty());
                },
            }
            string_of(&v)
        },
    }
}

fn prompt_text(s: Slot) -> (r: String)
    ensures
        r@ == prompt(s),
{
    match s {
        Slot::Duration => string_of(&chars_of("How long should the timer be?")),
        Slot::Location => string_of(&chars_of("Which location do you want the weather for?")),
        Slot::Label => string_of(&chars_of("What should the timer be called?")),
    }
}

fn settle_exec(a: ActiveIntent) -> (r: (Option<ActiveIntent>, DialogueResponse))
    ensures
        (active_view(r.0), r.1.text@, r.1.needs_more_input) == settle(a@),
        active_view(r.1.completed) == finished(a@),
{
    if a.missing.len() == 0 {
        let text = completion_text(&a);
        (None, DialogueResponse { text, needs_more_input: false, completed: Some(a) })
    } else {
        let text = prompt_text(a.missing[0]);
        (Some(a), DialogueResponse { text, needs_more_input: true, completed: None })
    }
}

/// Advances the conversation by one utterance, handing back the intent it completed.
pub fn advance(active: Option<ActiveIntent>, u: &str) -> (r: (Option<ActiveIntent>, DialogueResponse))
    ensures
        (active_view(r.0), r.1.text@, r.1.needs_more_input) == turn(active_view(active), u@),
        active_view(r.1.completed) == turn_done(active_view(active), u@),
{
    match active {
        Some(a) => {
            if a.missing.len() == 0 {
                return settle_exec(a);
            }
            let slot = a.missing[0];
            let ghost av = a@;
            let mut rest = a.missing;
            rest.remove(0);
            match slot {
                Slot::Duration => match parse_duration(u) {
                    Some(d) => {
                        let b = ActiveIntent { duration: Some(d), missing: rest, ..a };
                        assert(b@ == ActiveView { missing: av.missing.drop_first(), ..fill(av, slot, u@)->0 });
                        settle_exec(b)
                    },
                    None => {
                        let mut back = rest;
                        back.insert(0, slot);
                        let b = ActiveIntent { missing: back, ..a };
                        assert(b.missing@ =~= av.missing);
                        let text = cat("Sorry, I didn't understand. ", prompt_text(slot).as_str());
                        (Some(b), DialogueResponse { text, needs_more_input: true, completed: None })
                    },
                },
                _ => {
                    let t = trim_exec(&chars_of(u));
                    if t.len() > 0 {
                        let filled = string_of(&t);
                        let b = if slot == Slot::Location {
                            ActiveIntent { location: Some(filled), missing: rest, ..a }
                        } else {
                            ActiveIntent { label: Some(filled), missing: rest, ..a }
                        };
                        assert(b@ == ActiveView { missing: av.missing.drop_first(), ..fill(av, slot, u@)->0 });
                        settle_exec(b)
                    } else {
                        let mut back = rest;
                        back.insert(0, slot);
                        let b = ActiveIntent { missing: back, ..a };
                        assert(b.missing@ =~= av.missing);
                        let text = cat("Sorry, I didn't understand. ", prompt_text(slot).as_str());
                        (Some(b), DialogueResponse { text, needs_more_input: true, completed: None })
                    }
                },
            }
        },
        None => {
            let l = lowercase(u);
            if contains(&l, &chars_of("timer")) {
                settle_exec(start_intent(DialogueKind::Timer, u))
            } else if contains(&l, &chars_of("weather")) {
                settle_exec(start_intent(DialogueKind::Weather, u))
            } else {
                (
                    None,
                    DialogueResponse {
                        text: string_of(&chars_of("I didn't understand that. Can you try again?")),
                        needs_more_input: false,
                        completed: None,
                    },
                )
            }
        },
    }
}


/// The seconds in a unit of time.
pub open spec fn unit_secs(u: TimeUnit) -> u64 {
    match u {
        TimeUnit::Second => 1,
        TimeUnit::Minute => 60,
        TimeUnit::Hour => 3600,
    }
}

impl ActiveIntent {
    /// The intent to run: a timer of the spoken duration in seconds (saturating; none spoken
    /// reads as zero), or the weather at the filled location.
    pub fn to_intent(&self) -> (r: Intent)
        ensures
            match self.kind {
                DialogueKind::Timer => r == Intent::Timer {
                    duration_secs: match self.duration {
                        Some(d) => sat_mul_spec(d.amount, unit_secs(d.unit)),
                        None => 0,
                    },
                },
                DialogueKind::Weather => r == Intent::Weather { location: self.location },
            },
    {
        match self.kind {
            DialogueKind::Timer => {
                let secs = match self.duration {
                    Some(d) => sat_mul(
                        d.amount,
                        match d.unit {
                            TimeUnit::Second => 1,
                            TimeUnit::Minute => 60,
                            TimeUnit::Hour => 3600,
                        },
                    ),
                    None => 0,
                };
                Intent::Timer { duration_secs: secs }
            },
            DialogueKind::Weather => Intent::Weather { location: copy_opt(&self.location) },
        }
    }
}

/// One exchange of a conversation.
pub struct Turn {
    pub user: String,
    pub reply: String,
}

/// The most turns a session remembers.
pub const HISTORY_LIMIT: usize = 10;

/// The conversational state of one session.
pub struct DialogueSession {
    pub session_id: String,
    pub created_at: u64,
    pub last_activity: u64,
    pub turn_count: u32,
    pub active: Option<ActiveIntent>,
    pub history: Vec<Turn>,
    pub language: String,
    /// The place of the last completed weather request.
    pub location: Option<String>,
    /// The kinds of the completed intents, oldest first, at most `HISTORY_LIMIT`.
    pub topics: Vec<DialogueKind>,
}

/// A session keeps at most `HISTORY_LIMIT` turns and topics, and at most one open intent,
/// which is well formed.
pub open spec fn session_ok(s: DialogueSession) -> bool {
    &&& s.history@.len() <= HISTORY_LIMIT
    &&& s.topics@.len() <= HISTORY_LIMIT
    &&& s.active matches Some(a) ==> active_ok(a@)
}

/// The session has been idle longer than `timeout` at `now`.
pub open spec fn expired(s: DialogueSession, now: u64, timeout: u64) -> bool {
    elapsed(now, s.last_activity) > timeout
}

/// The sessions that are not expired, in order.
pub open spec fn live(ss: Seq<DialogueSession>, now: u64, timeout: u64) -> Seq<DialogueSession>
    decreases ss.len(),
{
    if ss.len() == 0 {
        Seq::empty()
    } else if expired(ss.last(), now, timeout) {
        live(ss.drop_last(), now, timeout)
    } else {
        live(ss.drop_last(), now, timeout).push(ss.last())
    }
}

/// Session ids are pairwise distinct.
pub open spec fn ids_unique(ss: Seq<DialogueSession>) -> bool {
    forall|a: int, b: int| 0 <= a < b < ss.len() ==> ss[a].session_id@ != ss[b].session_id@
}

proof fn lemma_live_subset(ss: Seq<DialogueSession>, now: u64, timeout: u64)
    ensures
        forall|x: DialogueSession| #[trigger] live(ss, now, timeout).contains(x) ==> ss.contains(x) && !expired(x, now, timeout),
        live(ss, now, timeout).len() <= ss.len(),
    decreases ss.len(),
{
    if ss.len() > 0 {
        lemma_live_subset(ss.drop_last(), now, timeout);
        let l = live(ss, now, timeout);
        let p = live(ss.drop_last(), now, timeout);
        assert forall|x: DialogueSession| #[trigger] l.contains(x) implies ss.contains(x) && !expired(x, now, timeout) by {
            let i = choose|i: int| 0 <= i < l.len() && l[i] == x;
            if !expired(ss.last(), now, timeout) && i == l.len() - 1 {
                assert(ss[ss.len() - 1] == x);
            } else {
                assert(p[i] == x);
                assert(p.contains(x));
                let j = choose|j: int| 0 <= j < ss.len() - 1 && ss.drop_last()[j] == x;
                assert(ss[j] == x);
            }
        }
    }
}

proof fn lemma_live_ids_unique(ss: Seq<DialogueSession>, now: u64, timeout: u64)
    requires
        ids_unique(ss),
    ensures
        ids_unique(live(ss, now, timeout)),
    decreases ss.len(),
{
    if ss.len() > 0 {
        assert(ids_unique(ss.drop_last()));
        lemma_live_ids_unique(ss.drop_last(), now, timeout);
        lemma_live_subset(ss.drop_last(), now, timeout);
        let p = live(ss.drop_last(), now, timeout);
        if !expired(ss.last(), now, timeout) {
            assert forall|a: int, b: int| 0 <= a < b < p.len() + 1 implies #[trigger] p.push(ss.last())[a].session_id@ != #[trigger] p.push(ss.last())[b].session_id@ by {
                if b == p.len() {
                    assert(p.contains(p[a]));
                    let j = choose|j: int| 0 <= j < ss.len() - 1 && ss.drop_last()[j] == p[a];
                    assert(ss[j] == p[a]);
                }
            }
        }
    }
}


/// The session with id `id` among `ss`, if it exists.
pub open spec fn prior_session(ss: Seq<DialogueSession>, id: Seq<char>) -> Option<DialogueSession> {
    if exists|i: int| 0 <= i < ss.len() && ss[i].session_id@ == id {
        Some(ss[choose|i: int| 0 <= i < ss.len() && ss[i].session_id@ == id])
    } else {
        None
    }
}

/// The mathematical form of a history: what the user said and what was replied.
pub open spec fn history_view(h: Seq<Turn>) -> Seq<(Seq<char>, Seq<char>)> {
    h.map_values(|t: Turn| (t.user@, t.reply@))
}

/// The open intent of the session with id `id` among `ss`, if it exists.
pub open spec fn prior_active(ss: Seq<DialogueSession>, id: Seq<char>) -> Option<ActiveView> {
    if exists|i: int| 0 <= i < ss.len() && ss[i].session_id@ == id {
        active_view(ss[choose|i: int| 0 <= i < ss.len() && ss[i].session_id@ == id].active)
    } else {
        None
    }
}

/// Holds the sessions by id, expires idle ones and keeps their number under a ceiling.
pub struct DialogueManager {
    sessions: Vec<DialogueSession>,
    session_timeout_ms: u64,
    max_sessions: usize,
}

impl DialogueManager {
    pub closed spec fn sessions(&self) -> Seq<DialogueSession> {
        self.sessions@
    }

    pub closed spec fn timeout(&self) -> u64 {
        self.session_timeout_ms
    }

    pub closed spec fn ceiling(&self) -> usize {
        self.max_sessions
    }

    /// Ids are unique, the ceiling is at least one and respected, and every session is well
    /// formed.
    pub open spec fn wf(&self) -> bool {
        &&& ids_unique(self.sessions())
        &&& self.ceiling() >= 1
        &&& self.sessions().len() <= self.ceiling()
        &&& forall|i: int| 0 <= i < self.sessions().len() ==> session_ok(#[trigger] self.sessions()[i])
    }

    /// No sessions; five minutes of idle time and at most 100 sessions.
    pub fn new() -> (r: DialogueManager)
        ensures
            r.wf(),
            r.sessions().len() == 0,
            r.timeout() == 300_000,
            r.ceiling() == 100,
    {
        DialogueManager { sessions: Vec::new(), session_timeout_ms: 300_000, max_sessions: 100 }
    }

    pub fn with_session_timeout(self, timeout_ms: u64) -> (r: DialogueManager)
        ensures
            r.sessions() == self.sessions(),
            r.timeout() == timeout_ms,
            r.ceiling() == self.ceiling(),
            self.wf() ==> r.wf(),
    {
        DialogueManager { session_timeout_ms: timeout_ms, ..self }
    }

    /// The same manager with another ceiling; sessions above it go at the next cleanup.
    pub fn with_max_sessions(self, max_sessions: usize) -> (r: DialogueManager)
        requires
            self.wf(),
            max_sessions >= self.sessions().len(),
            max_sessions >= 1,
        ensures
            r.wf(),
            r.sessions() == self.sessions(),
            r.timeout() == self.timeout(),
            r.ceiling() == max_sessions,
    {
        DialogueManager { max_sessions, ..self }
    }

    /// The number of live sessions.
    pub fn session_count(&self) -> (r: usize)
        ensures
            r == self.sessions().len(),
    {
        self.sessions.len()
    }

    /// The session with the given id, if any.
    pub fn session(&self, session_id: &str) -> (r: Option<&DialogueSession>)
        ensures
            match r {
                Some(s) => self.sessions().contains(*s) && s.session_id@ == session_id@,
                None => forall|i: int| 0 <= i < self.sessions().len() ==> self.sessions()[i].session_id@ != session_id@,
            },
    {
        match self.position(session_id) {
            Some(i) => Some(&self.sessions[i]),
            None => None,
        }
    }

    fn position(&self, session_id: &str) -> (r: Option<usize>)
        ensures
            match r {
                Some(i) => i < self.sessions@.len() && self.sessions@[i as int].session_id@ == session_id@,
                None => forall|i: int| 0 <= i < self.sessions@.len() ==> self.sessions@[i].session_id@ != session_id@,
            },
    {
        let target = chars_of(session_id);
        let mut i: usize = 0;
        while i < self.sessions.len()
            invariant
                i <= self.sessions@.len(),
                target@ == session_id@,
                forall|q: int| 0 <= q < i ==> self.sessions@[q].session_id@ != session_id@,
            decreases self.sessions@.len() - i,
        {
            if same_chars(&chars_of(self.sessions[i].session_id.as_str()), &target) {
                return Some(i);
            }
            i = i + 1;
        }
        None
    }

    /// Sets the recorded last activity of a session; other sessions are untouched.
    pub fn set_last_activity(&mut self, session_id: &str, at_ms: u64) -> (found: bool)
        requires
            old(self).wf(),
        ensures
            final(self).wf(),
            final(self).timeout() == old(self).timeout(),
            final(self).ceiling() == old(self).ceiling(),
            final(self).sessions().len() == old(self).sessions().len(),
            forall|i: int| 0 <= i < old(self).sessions().len() ==> {
                let o = old(self).sessions()[i];
                let n = #[trigger] final(self).sessions()[i];
                if o.session_id@ == session_id@ {
                    n.last_activity == at_ms && n.session_id == o.session_id
                } else {
                    n == o
                }
            },
            found == exists|i: int| 0 <= i < old(self).sessions().len() && old(self).sessions()[i].session_id@ == session_id@,
    {
        match self.position(session_id) {
            Some(i) => {
                let mut s = self.sessions.remove(i);
                s.last_activity = at_ms;
                self.sessions.insert(i, s);
                proof {
                    assert forall|a: int| 0 <= a < self.sessions@.len() && a != i implies self.sessions@[a] == old(self).sessions@[a] by {}
                    assert forall|a: int, b: int| 0 <= a < b < self.sessions@.len() implies self.sessions@[a].session_id@ != self.sessions@[b].session_id@ by {
                        assert(old(self).sessions@[a].session_id@ != old(self).sessions@[b].session_id@);
                    }
                }
                true
            },
            None => false,
        }
    }

    /// The index of a session with the least recent activity.
    fn least_recent(&self) -> (r: usize)
        requires
            self.sessions@.len() > 0,
        ensures
            r < self.sessions@.len(),
            forall|j: int| 0 <= j < self.sessions@.len() ==> self.sessions@[r as int].last_activity <= #[trigger] self.sessions@[j].last_activity,
    {
        let mut best: usize = 0;
        let mut i: usize = 1;
        while i < self.sessions.len()
            invariant
                1 <= i <= self.sessions@.len(),
                best < i,
                forall|j: int| 0 <= j < i ==> self.sessions@[best as int].last_activity <= #[trigger] self.sessions@[j].last_activity,
            decreases self.sessions@.len() - i,
        {
            if self.sessions[i].last_activity < self.sessions[best].last_activity {
                best = i;
            }
            i = i + 1;
        }
        best
    }

    /// Removes the sessions idle for longer than the timeout at `now_ms`, then, while more
    /// sessions remain than the ceiling allows, the least recently active one.
    pub fn cleanup_expired_sessions(&mut self, now_ms: u64)
        requires
            old(self).wf(),
        ensures
            final(self).wf(),
            final(self).timeout() == old(self).timeout(),
            final(self).ceiling() == old(self).ceiling(),
            ({
                let l = live(old(self).sessions(), now_ms, old(self).timeout());
                let f = final(self).sessions();
                &&& forall|i: int| 0 <= i < f.len() ==> !expired(#[trigger] f[i], now_ms, old(self).timeout())
                &&& forall|i: int| 0 <= i < f.len() ==> old(self).sessions().contains(#[trigger] f[i])
                &&& f.len() <= old(self).ceiling()
                &&& l.len() <= old(self).ceiling() ==> f == l
                &&& l.len() > old(self).ceiling() ==> f.len() == old(self).ceiling()
                &&& forall|e: DialogueSession| #[trigger] l.contains(e) && !f.contains(e) ==> forall|j: int| 0 <= j < f.len() ==> e.last_activity <= #[trigger] f[j].last_activity
                &&& forall|k: int, j: int|
                    0 <= k < old(self).sessions().len() && expired(old(self).sessions()[k], now_ms, old(self).timeout())
                        && 0 <= j < f.len() ==> #[trigger] f[j].session_id@ != #[trigger] old(self).sessions()[k].session_id@
            }),
    {
        let ghost old_s = self.sessions@;
        let timeout = self.session_timeout_ms;
        let mut kept: Vec<DialogueSession> = Vec::new();
        let mut src: Vec<DialogueSession> = Vec::new();
        std::mem::swap(&mut src, &mut self.sessions);
        let n = src.len();
        let mut i: usize = 0;
        while i < n
            invariant
                n == old_s.len(),
                i <= n,
                src@ == old_s.subrange(i as int, n as int),
                kept@ == live(old_s.subrange(0, i as int), now_ms, timeout),
            decreases n - i,
        {
            let s = src.remove(0);
            assert(old_s.subrange(0, i + 1).drop_last() =~= old_s.subrange(0, i as int));
            assert(old_s.subrange(0, i + 1).last() == s);
            assert(src@ =~= old_s.subrange(i + 1, n as int));
            let idle = if now_ms >= s.last_activity {
                now_ms - s.last_activity
            } else {
                0
            };
            if idle <= timeout {
                kept.push(s);
            }
            i = i + 1;
        }
        assert(old_s.subrange(0, n as int) =~= old_s);
        let ghost l = kept@;
        proof {
            lemma_live_subset(old_s, now_ms, timeout);
            lemma_live_ids_unique(old_s, now_ms, timeout);
        }
        self.sessions = kept;
        while self.sessions.len() > self.max_sessions
            invariant
                self.session_timeout_ms == timeout,
                self.max_sessions == old(self).max_sessions,
                self.max_sessions >= 1,
                l == live(old_s, now_ms, timeout),
                l.len() > self.max_sessions ==> self.sessions@.len() >= self.max_sessions,
                l.len() <= self.max_sessions ==> self.sessions@ == l,
                self.sessions@.len() <= l.len(),
                forall|x: DialogueSession| #[trigger] self.sessions@.contains(x) ==> l.contains(x),
                ids_unique(self.sessions@),
                forall|e: DialogueSession| #[trigger] l.contains(e) && !self.sessions@.contains(e) ==> forall|j: int| 0 <= j < self.sessions@.len() ==> e.last_activity <= #[trigger] self.sessions@[j].last_activity,
            decreases self.sessions@.len(),
        {
            let m = self.least_recent();
            let ghost before = self.sessions@;
            let _evicted = self.sessions.remove(m);
            proof {
                let after = self.sessions@;
                assert(after =~= before.remove(m as int));
                assert forall|x: DialogueSession| #[trigger] after.contains(x) implies l.contains(x) by {
                    let k = choose|k: int| 0 <= k < after.len() && after[k] == x;
                    if k < m {
                        assert(before[k] == x);
                    } else {
                        assert(before[k + 1] == x);
                    }
                    assert(before.contains(x));
                }
                assert forall|e: DialogueSession| #[trigger] l.contains(e) && !after.contains(e) implies forall|j: int| 0 <= j < after.len() ==> e.last_activity <= #[trigger] after[j].last_activity by {
                    if before.contains(e) {
                        let k = choose|k: int| 0 <= k < before.len() && before[k] == e;
                        if k != m {
                            if k < m {
                                assert(after[k] == e);
                            } else {
                                assert(after[k - 1] == e);
                            }
                        }
                        assert forall|j: int| 0 <= j < after.len() implies e.last_activity <= #[trigger] after[j].last_activity by {
                            if j < m {
                                assert(after[j] == before[j]);
                            } else {
                                assert(after[j] == before[j + 1]);
                            }
                        }
                    } else {
                        assert forall|j: int| 0 <= j < after.len() implies e.last_activity <= #[trigger] after[j].last_activity by {
                            if j < m {
                                assert(after[j] == before[j]);
                            } else {
                                assert(after[j] == before[j + 1]);
                            }
                        }
                    }
                }
                assert forall|a: int, b: int| 0 <= a < b < after.len() implies after[a].session_id@ != after[b].session_id@ by {
                    if b < m {
                    } else if a < m {
                        assert(after[b] == before[b + 1]);
                    } else {
                        assert(after[a] == before[a + 1]);
                        assert(after[b] == before[b + 1]);
                    }
                }
            }
        }
        proof {
            let f = self.sessions@;
            assert forall|i: int| 0 <= i < f.len() implies !expired(#[trigger] f[i], now_ms, timeout) && old_s.contains(f[i]) by {
                assert(f.contains(f[i]));
                assert(l.contains(f[i]));
            }
            assert forall|k: int, j: int|
                0 <= k < old_s.len() && expired(old_s[k], now_ms, timeout) && 0 <= j < f.len()
                implies #[trigger] f[j].session_id@ != #[trigger] old_s[k].session_id@ by {
                assert(f.contains(f[j]));
                assert(l.contains(f[j]));
                assert(old_s.contains(f[j]));
                let k2 = choose|k2: int| 0 <= k2 < old_s.len() && old_s[k2] == f[j];
                if k2 != k {
                    if k2 < k {
                        assert(old_s[k2].session_id@ != old_s[k].session_id@);
                    } else {
                        assert(old_s[k].session_id@ != old_s[k2].session_id@);
                    }
                }
            }
            assert forall|i: int| 0 <= i < f.len() implies session_ok(#[trigger] f[i]) by {
                assert(f.contains(f[i]));
                assert(old_s.contains(f[i]));
                let k = choose|k: int| 0 <= k < old_s.len() && old_s[k] == f[i];
                assert(session_ok(old_s[k]));
            }
        }
    }

    /// Handles one utterance of session `session_id` at `now_ms`: expired sessions go first;
    /// an unknown session is created (evicting the least recently active one when the
    /// ceiling is reached); then the turn runs on the session's open intent, the session's
    /// activity time is set to `now_ms`, and the exchange is added to its history.
    #[verifier::rlimit(100)]
    pub fn process_user_input(&mut self, session_id: &str, user_input: &str, now_ms: u64) -> (r:
        DialogueResponse)
        requires
            old(self).wf(),
        ensures
            final(self).wf(),
            final(self).timeout() == old(self).timeout(),
            final(self).ceiling() == old(self).ceiling(),
            ({
                let l = live(old(self).sessions(), now_ms, old(self).timeout());
                let t = turn(prior_active(l, session_id@), user_input@);
                let p = prior_session(l, session_id@);
                let old_history = match p {
                    Some(x) => history_view(x.history@),
                    None => Seq::empty(),
                };
                let old_count = match p {
                    Some(x) => x.turn_count,
                    None => 0u32,
                };
                &&& r.text@ == t.1
                &&& r.needs_more_input == t.2
                &&& active_view(r.completed) == turn_done(prior_active(l, session_id@), user_input@)
                &&& exists|i: int|
                    0 <= i < final(self).sessions().len() && #[trigger] final(self).sessions()[i].session_id@
                        == session_id@ && final(self).sessions()[i].last_activity == now_ms
                        && active_view(final(self).sessions()[i].active) == t.0
                        && history_view(final(self).sessions()[i].history@) == capped(
                        old_history.push((user_input@, t.1)),
                        HISTORY_LIMIT as nat,
                    ) && final(self).sessions()[i].turn_count == (if old_count < u32::MAX {
                        (old_count + 1) as u32
                    } else {
                        old_count
                    })
                &&& (p is Some || l.len() < old(self).ceiling()) ==> forall|x: DialogueSession|
                    #[trigger] l.contains(x) && x.session_id@ != session_id@ ==> final(self).sessions().contains(x)
            }),
    {
        let ghost old_s = self.sessions@;
        proof {
            lemma_live_subset(old_s, now_ms, self.session_timeout_ms);
        }
        self.cleanup_expired_sessions(now_ms);
        let ghost l = self.sessions@;
        assert(l == live(old_s, now_ms, self.session_timeout_ms));
        let ghost prior = prior_active(l, session_id@);
        let ghost psess = prior_session(l, session_id@);
        let idx = match self.position(session_id) {
            Some(i) => {
                proof {
                    let c = choose|j: int| 0 <= j < l.len() && l[j].session_id@ == session_id@;
                    assert(c == i as int);
                }
                assert(self.sessions@ == l);
                i
            },
            None => {
                if self.sessions.len() >= self.max_sessions {
                    let m = self.least_recent();
                    let ghost before = self.sessions@;
                    let _evicted = self.sessions.remove(m);
                    proof {
                        let after = self.sessions@;
                        assert forall|a: int, b: int| 0 <= a < b < after.len() implies after[a].session_id@ != after[b].session_id@ by {
                            if b < m {
                            } else if a < m {
                                assert(after[b] == before[b + 1]);
                            } else {
                                assert(after[a] == before[a + 1]);
                                assert(after[b] == before[b + 1]);
                            }
                        }
                        assert forall|a: int| 0 <= a < after.len() implies session_ok(#[trigger] after[a]) && after[a].session_id@ != session_id@ by {
                            if a < m {
                                assert(after[a] == before[a]);
                            } else {
                                assert(after[a] == before[a + 1]);
                            }
                        }
                    }
                }
                let fresh = DialogueSession {
                    session_id: string_of(&chars_of(session_id)),
                    created_at: now_ms,
                    last_activity: now_ms,
                    turn_count: 0,
                    active: None,
                    history: Vec::new(),
                    language: string_of(&chars_of("en")),
                    location: None,
                    topics: Vec::new(),
                };
                assert(prior is None);
                self.sessions.push(fresh);
                self.sessions.len() - 1
            },
        };
        let ghost mid = self.sessions@;
        assert(ids_unique(mid));
        let s = self.sessions.remove(idx);
        let ghost rest = self.sessions@;
        let DialogueSession {
            session_id: sid,
            created_at,
            last_activity: _,
            turn_count,
            active,
            history,
            language,
            location,
            topics,
        } = s;
        assert(active_view(active) == prior);
        assert(session_ok(mid[idx as int]));
        let ghost h0 = history_view(history@);
        let ghost c0 = turn_count;
        assert(h0 == match psess {
            Some(x) => history_view(x.history@),
            None => Seq::empty(),
        }) by {
            if psess is None {
                assert(history@ =~= Seq::<Turn>::empty());
                assert(h0 =~= Seq::<(Seq<char>, Seq<char>)>::empty());
            }
        };
        assert(c0 == match psess {
            Some(x) => x.turn_count,
            None => 0u32,
        });
        proof {
            lemma_turn_keeps_active_ok(prior, user_input@);
        }
        let (next, resp) = advance(active, user_input);
        let mut location = location;
        let mut topics = topics;
        match &resp.completed {
            Some(done) => {
                if done.kind == DialogueKind::Weather {
                    match &done.location {
                        Some(l) => {
                            location = Some(l.clone());
                        },
                        None => {},
                    }
                }
                topics.push(done.kind);
                if topics.len() > HISTORY_LIMIT {
                    let _oldest = topics.remove(0);
                }
            },
            None => {},
        }
        let mut history = history;
        let ghost pushed = h0.push((user_input@, resp.text@));
        history.push(Turn { user: string_of(&chars_of(user_input)), reply: resp.text.clone() });
        assert(history_view(history@) =~= pushed);
        if history.len() > HISTORY_LIMIT {
            let _oldest = history.remove(0);
            assert(history_view(history@) =~= pushed.subrange(1, pushed.len() as int));
        }
        assert(history_view(history@) == capped(pushed, HISTORY_LIMIT as nat));
        let count = if turn_count < u32::MAX {
            turn_count + 1
        } else {
            turn_count
        };
        let ns = DialogueSession {
            session_id: sid,
            created_at,
            last_activity: now_ms,
            turn_count: count,
            active: next,
            history,
            language,
            location,
            topics,
        };
        self.sessions.insert(idx, ns);
        proof {
            let f = self.sessions@;
            assert(f[idx as int].session_id@ == session_id@);
            assert(f[idx as int].last_activity == now_ms);
            assert(active_view(f[idx as int].active) == turn(prior, user_input@).0);
            assert(self.sessions()[idx as int].session_id@ == session_id@);
            assert(resp.text@ == turn(prior, user_input@).1);
            assert forall|a: int| 0 <= a < f.len() && a != idx implies #[trigger] f[a] == mid[a] by {
                if a < idx {
                    assert(f[a] == rest[a]);
                } else {
                    assert(f[a] == rest[a - 1]);
                }
            }
            assert forall|a: int, b: int| 0 <= a < b < f.len() implies f[a].session_id@ != f[b].session_id@ by {
                assert(mid[a].session_id@ != mid[b].session_id@);
            }
            if psess is Some || l.len() < old(self).max_sessions {
                assert forall|x: DialogueSession| #[trigger] l.contains(x) && x.session_id@ != session_id@ implies f.contains(x) by {
                    let k = choose|k: int| 0 <= k < l.len() && l[k] == x;
                    assert(mid[k] == l[k]);
                    assert(k != idx);
                    assert(f[k] == x);
                }
            }
            assert forall|a: int| 0 <= a < f.len() implies session_ok(#[trigger] f[a]) by {
                if a != idx {
                    assert(f[a] == mid[a]);
                }
            }
        }
        resp
    }

}

} // verus!
