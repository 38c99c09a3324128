//! The Plugin Runtime: manifests, registration with validation, first-match dispatch of
//! free text to a plugin's intent pattern, parameter extraction and execution.
use crate::pattern::{regex_accepts, regex_finds, Pattern};
use crate::text::{
    cat, chars_of, contains, contains_seq, lower_of, lowercase, parse_i64, parse_i64_spec,
    same_chars, split_words, string_of, views, words,
};
use vstd::prelude::*;

verus! {

/// What a plugin may touch.
#[derive(Clone)]
pub enum Permission {
    FileSystem { paths: Vec<String> },
    Network { domains: Vec<String> },
    SystemCommands { commands: Vec<String> },
    AudioAccess,
    ConfigAccess,
    AllPermissions,
}

/// A parameter that an intent pattern declares; `param_type` is `string`, `number`,
/// `boolean` or `array`.
pub struct ParameterDef {
    pub name: String,
    pub param_type: String,
    pub required: bool,
    pub description: String,
}

/// A named intent that a plugin serves, with the pattern strings that select it and its
/// confidence in percent.
pub struct IntentPattern {
    pub name: String,
    pub patterns: Vec<String>,
    pub confidence: u32,
    pub parameters: Vec<ParameterDef>,
}

/// A plugin's identity, permissions and intent patterns.
pub struct PluginManifest {
    pub name: String,
    pub version: String,
    pub description: String,
    pub author: String,
    pub entry_point: String,
    pub permissions: Vec<Permission>,
    pub dependencies: Vec<String>,
    pub intent_patterns: Vec<IntentPattern>,
    pub config_schema: Option<String>,
}

/// An extracted parameter value.
pub enum ParamValue {
    Number(i64),
    Text(String),
}

/// The mathematical form of a parameter value.
pub enum ParamView {
    Number(i64),
    Text(Seq<char>),
}

impl View for ParamValue {
    type V = ParamView;

    open spec fn view(&self) -> ParamView {
        match self {
            ParamValue::Number(n) => ParamView::Number(*n),
            ParamValue::Text(s) => ParamView::Text(s@),
        }
    }
}

/// Named parameter values, in extraction order.
pub type Params = Vec<(String, ParamValue)>;

/// The mathematical form of named parameter values.
pub open spec fn params_view(p: Seq<(String, ParamValue)>) -> Seq<(Seq<char>, ParamView)> {
    p.map_values(|e: (String, ParamValue)| (e.0@, e.1@))
}

/// Settings handed to a plugin, as key and text value.
pub type PluginConfig = Vec<(String, String)>;

/// What a plugin is given when it is initialised.
pub struct PluginContext {
    pub plugin_name: String,
    pub config: PluginConfig,
    pub permissions: Vec<Permission>,
    pub data_dir: String,
}

/// Something a plugin reports besides its result.
pub enum PluginEvent {
    Log { level: String, message: String },
    Notification { title: String, body: String },
    StateChange { key: String, value: String },
    CustomEvent { event_type: String, data: String },
}

/// The outcome of one plugin execution.
pub struct PluginResult {
    pub success: bool,
    pub message: String,
    pub data: Option<Params>,
    pub events: Vec<PluginEvent>,
}

/// Why a plugin operation failed.
pub enum PluginError {
    NotFound(String),
    PermissionDenied(String),
    InvalidConfig(String),
    ExecutionFailed(String),
}


impl PluginError {
    /// A one-line description of the error.
    pub fn describe(&self) -> (r: String)
        ensures
            r@ == match self {
                PluginError::NotFound(m) => "Plugin not found: "@ + m@,
                PluginError::PermissionDenied(m) => "Permission denied: "@ + m@,
                PluginError::InvalidConfig(m) => "Invalid configuration: "@ + m@,
                PluginError::ExecutionFailed(m) => "Execution failed: "@ + m@,
            },
    {
        match self {
            PluginError::NotFound(m) => cat("Plugin not found: ", m.as_str()),
            PluginError::PermissionDenied(m) => cat("Permission denied: ", m.as_str()),
            PluginError::InvalidConfig(m) => cat("Invalid configuration: ", m.as_str()),
            PluginError::ExecutionFailed(m) => cat("Execution failed: ", m.as_str()),
        }
    }
}

/// A capability that takes part in dispatch.
pub trait Plugin: Sized {
    /// The manifest this plugin was built with.
    spec fn spec_manifest(&self) -> PluginManifest;

    fn manifest(&self) -> (r: &PluginManifest)
        ensures
            *r == self.spec_manifest(),
    ;

    /// Whether initialisation succeeds whatever the context.
    spec fn always_initializes(&self) -> bool;

    /// Prepares the plugin; its manifest does not change.
    fn initialize(&mut self, context: PluginContext) -> (r: Result<(), PluginError>)
        ensures
            final(self).spec_manifest() == old(self).spec_manifest(),
            old(self).always_initializes() ==> r is Ok,
    ;

    /// Whether `r` is an answer this plugin may give to `intent` with these parameters.
    spec fn answers(
        &self,
        intent: Seq<char>,
        params: Seq<(Seq<char>, ParamView)>,
        r: Result<PluginResult, PluginError>,
    ) -> bool;

    /// Serves `intent`; the answer is one that `answers` admits.
    fn execute(&self, intent: &str, parameters: &Params) -> (r: Result<PluginResult, PluginError>)
        ensures
            self.answers(intent@, params_view(parameters@), r),
    ;

    /// Releases the plugin's resources.
    fn cleanup(&mut self) -> Result<(), PluginError>;

    /// Whether the plugin accepts these settings.
    spec fn accepts_config(&self, config: Seq<(Seq<char>, Seq<char>)>) -> bool;

    /// Checks settings; they are accepted exactly when `accepts_config` holds.
    fn validate_config(&self, config: &PluginConfig) -> (r: Result<(), PluginError>)
        ensures
            r is Ok <==> self.accepts_config(config_view(config@)),
    ;
}

/// The mathematical form of settings.
pub open spec fn config_view(c: Seq<(String, String)>) -> Seq<(Seq<char>, Seq<char>)> {
    c.map_values(|e: (String, String)| (e.0@, e.1@))
}

/// A manifest is valid when its name and version are non-empty and every intent pattern
/// has at least one pattern string.
pub open spec fn manifest_valid(m: PluginManifest) -> bool {
    m.name@.len() > 0 && m.version@.len() > 0 && forall|j: int|
        0 <= j < m.intent_patterns@.len() ==> #[trigger] m.intent_patterns@[j].patterns@.len()
            > 0
}

/// One pattern string fires on `text`: both are lower-cased; a pattern that compiles is
/// matched as a regular expression, any other is looked for as plain text.
pub open spec fn string_fires(text: Seq<char>, pattern: Seq<char>) -> bool {
    let t = lower_of(text);
    let p = lower_of(pattern);
    if regex_accepts(p) {
        regex_finds(p, t)
    } else {
        contains_seq(t, p)
    }
}

/// Some pattern string of `ip` fires on `text`.
pub open spec fn pattern_fires(text: Seq<char>, ip: IntentPattern) -> bool {
    exists|k: int| 0 <= k < ip.patterns@.len() && string_fires(text, #[trigger] ip.patterns@[k]@)
}

/// Intent pattern `j` of plugin `i` fires on `text`.
pub open spec fn fires_at(ms: Seq<PluginManifest>, text: Seq<char>, i: int, j: int) -> bool {
    0 <= i < ms.len() && 0 <= j < ms[i].intent_patterns@.len() && pattern_fires(
        text,
        ms[i].intent_patterns@[j],
    )
}

/// Pattern `j` of plugin `i` is the first that fires: no pattern of an earlier plugin
/// fires, nor an earlier pattern of the same plugin.
pub open spec fn first_hit(ms: Seq<PluginManifest>, text: Seq<char>, i: int, j: int) -> bool {
    &&& fires_at(ms, text, i, j)
    &&& forall|a: int, b: int| 0 <= a < i ==> !#[trigger] fires_at(ms, text, a, b)
    &&& forall|b: int| 0 <= b < j ==> !#[trigger] fires_at(ms, text, i, b)
}

/// A word that introduces a place or object.
pub open spec fn is_preposition(w: Seq<char>) -> bool {
    w == "for"@ || w == "to"@ || w == "in"@ || w == "at"@ || w == "on"@ || w == "with"@
}

/// The word after the first word that is, in lower case, a preposition followed by another
/// word.
pub open spec fn word_after_preposition(ws: Seq<Seq<char>>) -> Option<Seq<char>>
    decreases ws.len(),
{
    if ws.len() < 2 {
        None
    } else if is_preposition(lower_of(ws[0])) {
        Some(ws[1])
    } else {
        word_after_preposition(ws.drop_first())
    }
}

/// The first word that reads as an `i64`.
pub open spec fn first_i64(ws: Seq<Seq<char>>) -> Option<i64>
    decreases ws.len(),
{
    if ws.len() == 0 {
        None
    } else if parse_i64_spec(ws[0]) is Some {
        parse_i64_spec(ws[0])
    } else {
        first_i64(ws.drop_first())
    }
}

/// The parameters of `defs` that `text` supplies, in declaration order: a `number` is the
/// first word that reads as an integer, a `string` the word after the first preposition;
/// other types are not extracted.
pub open spec fn param_entries(defs: Seq<ParameterDef>, text: Seq<char>) -> Seq<
    (Seq<char>, ParamView),
>
    decreases defs.len(),
{
    if defs.len() == 0 {
        Seq::empty()
    } else {
        let rest = param_entries(defs.drop_last(), text);
        let d = defs.last();
        if d.param_type@ == "number"@ {
            match first_i64(words(text)) {
                Some(n) => rest.push((d.name@, ParamView::Number(n))),
                None => rest,
            }
        } else if d.param_type@ == "string"@ {
            match word_after_preposition(words(text)) {
                Some(w) => rest.push((d.name@, ParamView::Text(w))),
                None => rest,
            }
        } else {
            rest
        }
    }
}

/// `r` is what dispatch gives for `text` over the manifests `ms`: the first plugin, in
/// registration order, whose first firing intent pattern is taken, with its parameters.
pub open spec fn dispatched(
    ms: Seq<PluginManifest>,
    text: Seq<char>,
    r: Option<(String, String, Params)>,
) -> bool {
    match r {
        Some((plugin, intent, params)) => exists|i: int, j: int|
            first_hit(ms, text, i, j) && plugin@ == ms[i].name@ && intent@
                == ms[i].intent_patterns@[j].name@ && params_view(params@) == param_entries(
                ms[i].intent_patterns@[j].parameters@,
                text,
            ),
        None => forall|i: int, j: int| !#[trigger] fires_at(ms, text, i, j),
    }
}

/// The mathematical form of a dispatch result.
pub open spec fn dispatch_view(r: Option<(String, String, Params)>) -> Option<
    (Seq<char>, Seq<char>, Seq<(Seq<char>, ParamView)>),
> {
    match r {
        Some((p, i, ps)) => Some((p@, i@, params_view(ps@))),
        None => None,
    }
}

proof fn lemma_first_hit_unique(ms: Seq<PluginManifest>, text: Seq<char>, ia: int, ja: int, ib: int, jb: int)
    requires
        first_hit(ms, text, ia, ja),
        first_hit(ms, text, ib, jb),
    ensures
        ia == ib && ja == jb,
{
    if ia < ib {
        assert(!fires_at(ms, text, ia, ja));
    } else if ib < ia {
        assert(!fires_at(ms, text, ib, jb));
    } else if ja < jb {
        assert(!fires_at(ms, text, ib, ja));
    } else if jb < ja {
        assert(!fires_at(ms, text, ia, jb));
    }
}

/// Dispatch is deterministic: over the same manifests and text, any two results that meet
/// the dispatch rule name the same plugin, intent and parameters.
pub proof fn lemma_dispatch_deterministic(
    ms: Seq<PluginManifest>,
    text: Seq<char>,
    r1: Option<(String, String, Params)>,
    r2: Option<(String, String, Params)>,
)
    requires
        dispatched(ms, text, r1),
        dispatched(ms, text, r2),
    ensures
        dispatch_view(r1) == dispatch_view(r2),
{
    match (r1, r2) {
        (Some((pa, na, xa)), Some((pb, nb, xb))) => {
            let (ia, ja) = choose|i: int, j: int|
                first_hit(ms, text, i, j) && pa@ == ms[i].name@ && na@
                    == ms[i].intent_patterns@[j].name@ && params_view(xa@) == param_entries(
                    ms[i].intent_patterns@[j].parameters@,
                    text,
                );
            let (ib, jb) = choose|i: int, j: int|
                first_hit(ms, text, i, j) && pb@ == ms[i].name@ && nb@
                    == ms[i].intent_patterns@[j].name@ && params_view(xb@) == param_entries(
                    ms[i].intent_patterns@[j].parameters@,
                    text,
                );
            lemma_first_hit_unique(ms, text, ia, ja, ib, jb);
        },
        (Some((pa, na, xa)), None) => {
            let (ia, ja) = choose|i: int, j: int|
                first_hit(ms, text, i, j) && pa@ == ms[i].name@ && na@
                    == ms[i].intent_patterns@[j].name@ && params_view(xa@) == param_entries(
                    ms[i].intent_patterns@[j].parameters@,
                    text,
                );
            assert(!fires_at(ms, text, ia, ja));
        },
        (None, Some((pb, nb, xb))) => {
            let (ib, jb) = choose|i: int, j: int|
                first_hit(ms, text, i, j) && pb@ == ms[i].name@ && nb@
                    == ms[i].intent_patterns@[j].name@ && params_view(xb@) == param_entries(
                    ms[i].intent_patterns@[j].parameters@,
                    text,
                );
            assert(!fires_at(ms, text, ib, jb));
        },
        (None, None) => {},
    }
}

/// Whether one pattern string fires on `text`.
fn string_fires_exec(text: &str, pattern: &str) -> (r: bool)
    ensures
        r == string_fires(text@, pattern@),
{
    let t = string_of(&lowercase(text));
    let p = string_of(&lowercase(pattern));
    match Pattern::compile(p.as_str()) {
        Some(re) => re.is_match(t.as_str()),
        None => contains(&chars_of(t.as_str()), &chars_of(p.as_str())),
    }
}

/// Whether any pattern string of `ip` fires on `text`.
pub fn matches_pattern(text: &str, ip: &IntentPattern) -> (r: bool)
    ensures
        r == pattern_fires(text@, *ip),
{
    let mut k: usize = 0;
    while k < ip.patterns.len()
        invariant
            k <= ip.patterns@.len(),
            forall|q: int| 0 <= q < k ==> !string_fires(text@, #[trigger] ip.patterns@[q]@),
        decreases ip.patterns@.len() - k,
    {
        if string_fires_exec(text, ip.patterns[k].as_str()) {
            return true;
        }
        k = k + 1;
    }
    false
}

/// The first word of `ws` that reads as an `i64`.
fn first_i64_exec(ws: &Vec<Vec<char>>) -> (r: Option<i64>)
    ensures
        r == first_i64(views(ws@)),
{
    let mut i: usize = 0;
    assert(views(ws@).subrange(0, ws@.len() as int) =~= views(ws@));
    while i < ws.len()
        invariant
            i <= ws.len(),
            first_i64(views(ws@).subrange(i as int, ws@.len() as int)) == first_i64(views(ws@)),
        decreases ws.len() - i,
    {
        let ghost rest = views(ws@).subrange(i as int, ws@.len() as int);
        assert(rest.drop_first() =~= views(ws@).subrange(i + 1, ws@.len() as int));
        assert(rest[0] == ws@[i as int]@);
        let n = parse_i64(&ws[i]);
        if n.is_some() {
            return n;
        }
        i = i + 1;
    }
    assert(views(ws@).subrange(i as int, ws@.len() as int) =~= Seq::<Seq<char>>::empty());
    None
}

/// Whether `w` is, in lower case, a preposition.
fn is_preposition_exec(w: &Vec<char>) -> (r: bool)
    ensures
        r == is_preposition(lower_of(w@)),
{
    let l = lowercase(string_of(w).as_str());
    same_chars(&l, &chars_of("for")) || same_chars(&l, &chars_of("to")) || same_chars(
        &l,
        &chars_of("in"),
    ) || same_chars(&l, &chars_of("at")) || same_chars(&l, &chars_of("on")) || same_chars(
        &l,
        &chars_of("with"),
    )
}

/// The word after the first preposition that has a word after it.
fn word_after_preposition_exec(ws: &Vec<Vec<char>>) -> (r: Option<String>)
    ensures
        match r {
            Some(s) => word_after_preposition(views(ws@)) == Some(s@),
            None => word_after_preposition(views(ws@)) is None,
        },
{
    let mut i: usize = 0;
    assert(views(ws@).subrange(0, ws@.len() as int) =~= views(ws@));
    while ws.len() > 1 && i < ws.len() - 1
        invariant
            i <= ws.len(),
            word_after_preposition(views(ws@).subrange(i as int, ws@.len() as int))
                == word_after_preposition(views(ws@)),
        decreases ws.len() - i,
    {
        let ghost rest = views(ws@).subrange(i as int, ws@.len() as int);
        assert(rest.drop_first() =~= views(ws@).subrange(i + 1, ws@.len() as int));
        assert(rest[0] == ws@[i as int]@);
        assert(rest[1] == ws@[i + 1]@);
        if is_preposition_exec(&ws[i]) {
            return Some(string_of(&ws[i + 1]));
        }
        i = i + 1;
    }
    None
}

/// Extracts the declared parameters of `ip` from `text`.
pub fn extract_parameters(text: &str, ip: &IntentPattern) -> (r: Params)
    ensures
        params_view(r@) == param_entries(ip.parameters@, text@),
{
    let ws = split_words(&chars_of(text));
    let mut out: Params = Vec::new();
    let mut k: usize = 0;
    while k < ip.parameters.len()
        invariant
            k <= ip.parameters@.len(),
            views(ws@) == words(text@),
            params_view(out@) == param_entries(ip.parameters@.subrange(0, k as int), text@),
        decreases ip.parameters@.len() - k,
    {
        let d = &ip.parameters[k];
        let ghost defs = ip.parameters@.subrange(0, k + 1);
        assert(defs.drop_last() =~= ip.parameters@.subrange(0, k as int));
        let ty = chars_of(d.param_type.as_str());
        if same_chars(&ty, &chars_of("number")) {
            match first_i64_exec(&ws) {
                Some(n) => {
                    let ghost before = out@;
                    out.push((d.name.clone(), ParamValue::Number(n)));
                    assert(params_view(out@) =~= params_view(before).push(
                        (d.name@, ParamView::Number(n)),
                    ));
                },
                None => {},
            }
        } else if same_chars(&ty, &chars_of("string")) {
            match word_after_preposition_exec(&ws) {
                Some(w) => {
                    let ghost before = out@;
                    let ghost wv = w@;
                    out.push((d.name.clone(), ParamValue::Text(w)));
                    assert(params_view(out@) =~= params_view(before).push(
                        (d.name@, ParamView::Text(wv)),
                    ));
                },
                None => {},
            }
        }
        k = k + 1;
    }
    assert(ip.parameters@.subrange(0, ip.parameters@.len() as int) =~= ip.parameters@);
    out
}

/// Checks a manifest: a non-empty name and version, and at least one pattern string in every
/// intent pattern.
pub fn validate_manifest(m: &PluginManifest) -> (r: Result<(), PluginError>)
    ensures
        r is Ok <==> manifest_valid(*m),
        r matches Err(e) ==> e is InvalidConfig,
{
    if m.name.as_str().unicode_len() == 0 {
        return Err(PluginError::InvalidConfig(string_of(&chars_of("Plugin name cannot be empty"))));
    }
    if m.version.as_str().unicode_len() == 0 {
        return Err(
            PluginError::InvalidConfig(string_of(&chars_of("Plugin version cannot be empty"))),
        );
    }
    let mut j: usize = 0;
    while j < m.intent_patterns.len()
        invariant
            j <= m.intent_patterns@.len(),
            forall|q: int| 0 <= q < j ==> #[trigger] m.intent_patterns@[q].patterns@.len() > 0,
        decreases m.intent_patterns@.len() - j,
    {
        let ip = &m.intent_patterns[j];
        if ip.patterns.len() == 0 {
            let msg = cat(
                cat("Intent pattern '", ip.name.as_str()).as_str(),
                "' has no patterns",
            );
            return Err(PluginError::InvalidConfig(msg));
        }
        j = j + 1;
    }
    Ok(())
}

/// The names of `ms` are pairwise distinct.
pub open spec fn names_unique(ms: Seq<PluginManifest>) -> bool {
    forall|a: int, b: int| 0 <= a < b < ms.len() ==> ms[a].name@ != ms[b].name@
}

/// The index of the manifest named `name`, if any.
pub open spec fn index_of(ms: Seq<PluginManifest>, name: Seq<char>) -> Option<int> {
    if exists|i: int| 0 <= i < ms.len() && ms[i].name@ == name {
        Some(choose|i: int| 0 <= i < ms.len() && ms[i].name@ == name)
    } else {
        None
    }
}

/// Under unique names, a manifest's own name leads back to its position.
pub proof fn lemma_index_of_unique(ms: Seq<PluginManifest>, i: int)
    requires
        names_unique(ms),
        0 <= i < ms.len(),
    ensures
        index_of(ms, ms[i].name@) == Some(i),
{
    assert(0 <= i < ms.len() && ms[i].name@ == ms[i].name@);
    let c = choose|k: int| 0 <= k < ms.len() && ms[k].name@ == ms[i].name@;
    if c < i {
        assert(ms[c].name@ != ms[i].name@);
    } else if i < c {
        assert(ms[i].name@ != ms[c].name@);
    }
}

/// Holds loaded plugins by name, in registration order, with their settings.
pub struct PluginManager<P: Plugin> {
    plugins: Vec<P>,
    plugin_configs: Vec<(String, PluginConfig)>,
    plugins_dir: String,
    security_enabled: bool,
}

impl<P: Plugin> PluginManager<P> {
    /// The loaded plugins, in registration order.
    pub closed spec fn plugins(&self) -> Seq<P> {
        self.plugins@
    }

    /// The manifests of the loaded plugins, in registration order.
    pub open spec fn manifests(&self) -> Seq<PluginManifest> {
        self.plugins().map_values(|p: P| p.spec_manifest())
    }

    pub closed spec fn security(&self) -> bool {
        self.security_enabled
    }

    pub closed spec fn dir(&self) -> Seq<char> {
        self.plugins_dir@
    }

    /// Names are unique and every loaded manifest is valid.
    pub open spec fn wf(&self) -> bool {
        names_unique(self.manifests()) && forall|i: int|
            0 <= i < self.manifests().len() ==> manifest_valid(#[trigger] self.manifests()[i])
    }

    /// An empty manager that keeps plugin data under `plugins_dir`, with security checks on.
    pub fn new(plugins_dir: &str) -> (r: PluginManager<P>)
        ensures
            r.wf(),
            r.manifests().len() == 0,
            r.security(),
            r.dir() == plugins_dir@,
    {
        let r = PluginManager {
            plugins: Vec::new(),
            plugin_configs: Vec::new(),
            plugins_dir: string_of(&chars_of(plugins_dir)),
            security_enabled: true,
        };
        assert(r.manifests() =~= Seq::<PluginManifest>::empty());
        r
    }

    pub fn with_security(self, enabled: bool) -> (r: PluginManager<P>)
        ensures
            r.manifests() == self.manifests(),
            r.security() == enabled,
            r.dir() == self.dir(),
            self.wf() ==> r.wf(),
    {
        PluginManager { security_enabled: enabled, ..self }
    }

    /// The position of the plugin named `name`.
    fn position(&self, name: &str) -> (r: Option<usize>)
        requires
            self.wf(),
        ensures
            match r {
                Some(i) => i < self.manifests().len() && self.manifests()[i as int].name@
                    == name@,
                None => forall|i: int|
                    0 <= i < self.manifests().len() ==> self.manifests()[i].name@ != name@,
            },
    {
        let target = chars_of(name);
        let mut i: usize = 0;
        while i < self.plugins.len()
            invariant
                i <= self.plugins@.len(),
                target@ == name@,
                forall|q: int| 0 <= q < i ==> self.manifests()[q].name@ != name@,
            decreases self.plugins@.len() - i,
        {
            let m = self.plugins[i].manifest();
            assert(self.manifests()[i as int] == self.plugins@[i as int].spec_manifest());
            if same_chars(&chars_of(m.name.as_str()), &target) {
                return Some(i);
            }
            i = i + 1;
        }
        None
    }

    /// The settings stored for `name`, or none.
    fn config_for(&self, name: &str) -> (r: PluginConfig) {
        let target = chars_of(name);
        let mut i: usize = 0;
        while i < self.plugin_configs.len()
            invariant
                i <= self.plugin_configs@.len(),
            decreases self.plugin_configs@.len() - i,
        {
            if same_chars(&chars_of(self.plugin_configs[i].0.as_str()), &target) {
                return self.plugin_configs[i].1.clone();
            }
            i = i + 1;
        }
        Vec::new()
    }

    /// Validates the plugin's manifest, initialises the plugin and registers it under its
    /// name, replacing a plugin of the same name in place.
    pub fn load_plugin(&mut self, plugin: P) -> (r: Result<(), PluginError>)
        requires
            old(self).wf(),
        ensures
            final(self).wf(),
            final(self).security() == old(self).security(),
            final(self).dir() == old(self).dir(),
            !manifest_valid(plugin.spec_manifest()) ==> (r matches Err(e) && e is InvalidConfig),
            manifest_valid(plugin.spec_manifest()) && plugin.always_initializes() ==> r is Ok,
            r is Err ==> final(self).manifests() == old(self).manifests(),
            r is Ok ==> manifest_valid(plugin.spec_manifest()) && match index_of(
                old(self).manifests(),
                plugin.spec_manifest().name@,
            ) {
                Some(i) => final(self).manifests() == old(self).manifests().update(
                    i,
                    plugin.spec_manifest(),
                ),
                None => final(self).manifests() == old(self).manifests().push(
                    plugin.spec_manifest(),
                ),
            },
    {
        let mut plugin = plugin;
        let ghost m0 = plugin.spec_manifest();
        validate_manifest(plugin.manifest())?;
        let name = plugin.manifest().name.clone();
        let context = PluginContext {
            plugin_name: name.clone(),
            config: self.config_for(name.as_str()),
            permissions: plugin.manifest().permissions.clone(),
            data_dir: cat(cat(self.plugins_dir.as_str(), "/data/").as_str(), name.as_str()),
        };
        plugin.initialize(context)?;
        assert(plugin.spec_manifest() == m0);
        let ghost before = self.manifests();
        match self.position(name.as_str()) {
            Some(i) => {
                proof {
                    assert(exists|k: int| 0 <= k < before.len() && before[k].name@ == name@);
                    let c = choose|k: int| 0 <= k < before.len() && before[k].name@ == name@;
                    assert(c == i as int);
                }
                self.plugins.set(i, plugin);
                assert(self.manifests() =~= before.update(i as int, m0));
            },
            None => {
                self.plugins.push(plugin);
                assert(self.manifests() =~= before.push(m0));
            },
        }
        Ok(())
    }

    /// Runs `intent` of the plugin named `plugin_name`, after the permission check when
    /// security is on (every loaded plugin currently passes it), and hands back the plugin's
    /// answer unchanged.
    pub fn execute_plugin(&self, plugin_name: &str, intent: &str, parameters: &Params) -> (r:
        Result<PluginResult, PluginError>)
        requires
            self.wf(),
        ensures
            match index_of(self.manifests(), plugin_name@) {
                Some(i) => self.plugins()[i].answers(intent@, params_view(parameters@), r),
                None => r matches Err(e) && e matches PluginError::NotFound(n) && n@ == plugin_name@,
            },
    {
        match self.position(plugin_name) {
            Some(i) => {
                proof {
                    lemma_index_of_unique(self.manifests(), i as int);
                }
                if self.security_enabled {
                    self.check_permissions(plugin_name, intent)?;
                }
                self.plugins[i].execute(intent, parameters)
            },
            None => {
                assert(!(exists|k: int| 0 <= k < self.manifests().len() && self.manifests()[k].name@ == plugin_name@));
                Err(PluginError::NotFound(string_of(&chars_of(plugin_name))))
            },
        }
    }

    /// The permission check; every loaded plugin passes it.
    fn check_permissions(&self, plugin_name: &str, intent: &str) -> (r: Result<(), PluginError>)
        ensures
            r is Ok,
    {
        Ok(())
    }

    /// The first plugin, in registration order, whose first firing intent pattern claims
    /// `intent_text`, with that intent's name and the parameters found in the text.
    pub fn find_plugin_for_intent(&self, intent_text: &str) -> (r: Option<(String, String, Params)>)
        ensures
            dispatched(self.manifests(), intent_text@, r),
    {
        let ghost ms = self.manifests();
        let mut i: usize = 0;
        while i < self.plugins.len()
            invariant
                i <= self.plugins@.len(),
                ms == self.manifests(),
                forall|a: int, b: int| 0 <= a < i ==> !#[trigger] fires_at(ms, intent_text@, a, b),
            decreases self.plugins@.len() - i,
        {
            let m = self.plugins[i].manifest();
            assert(ms[i as int] == self.plugins@[i as int].spec_manifest());
            let mut j: usize = 0;
            while j < m.intent_patterns.len()
                invariant
                    i < self.plugins@.len(),
                    ms == self.manifests(),
                    *m == ms[i as int],
                    j <= m.intent_patterns@.len(),
                    forall|a: int, b: int|
                        0 <= a < i ==> !#[trigger] fires_at(ms, intent_text@, a, b),
                    forall|b: int| 0 <= b < j ==> !#[trigger] fires_at(ms, intent_text@, i as int, b),
                decreases m.intent_patterns@.len() - j,
            {
                let ip = &m.intent_patterns[j];
                if matches_pattern(intent_text, ip) {
                    let params = extract_parameters(intent_text, ip);
                    let r = Some((m.name.clone(), ip.name.clone(), params));
                    assert(first_hit(ms, intent_text@, i as int, j as int));
                    return r;
                }
                j = j + 1;
            }
            assert forall|a: int, b: int| 0 <= a < i + 1 implies !#[trigger] fires_at(
                ms,
                intent_text@,
                a,
                b,
            ) by {
                if a == i && 0 <= b < ms[i as int].intent_patterns@.len() {
                    assert(!fires_at(ms, intent_text@, i as int, b));
                }
            }
            i = i + 1;
        }
        None
    }

    /// The manifests of the loaded plugins, in registration order.
    pub fn list_plugins(&self) -> (r: Vec<&PluginManifest>)
        ensures
            r@.len() == self.manifests().len(),
            forall|i: int| 0 <= i < r@.len() ==> *r@[i] == self.manifests()[i],
    {
        let mut out: Vec<&PluginManifest> = Vec::new();
        let mut i: usize = 0;
        while i < self.plugins.len()
            invariant
                i <= self.plugins@.len(),
                out@.len() == i,
                forall|q: int| 0 <= q < i ==> *out@[q] == self.manifests()[q],
            decreases self.plugins@.len() - i,
        {
            out.push(self.plugins[i].manifest());
            i = i + 1;
        }
        out
    }

    /// Removes the plugin named `plugin_name`, if loaded, and releases it.
    pub fn unload_plugin(&mut self, plugin_name: &str) -> (r: Result<(), PluginError>)
        requires
            old(self).wf(),
        ensures
            final(self).wf(),
            final(self).security() == old(self).security(),
            final(self).dir() == old(self).dir(),
            match index_of(old(self).manifests(), plugin_name@) {
                Some(i) => final(self).manifests() == old(self).manifests().remove(i),
                None => final(self).manifests() == old(self).manifests() && r is Ok,
            },
    {
        let ghost before = self.manifests();
        match self.position(plugin_name) {
            Some(i) => {
                proof {
                    assert(exists|k: int| 0 <= k < before.len() && before[k].name@ == plugin_name@);
                    let c = choose|k: int| 0 <= k < before.len() && before[k].name@ == plugin_name@;
                    assert(c == i as int);
                }
                let mut plugin = self.plugins.remove(i);
                assert(self.manifests() =~= before.remove(i as int));
                plugin.cleanup()
            },
            None => Ok(()),
        }
    }

    /// The stored settings, by plugin name.
    pub closed spec fn configs(&self) -> Seq<(Seq<char>, Seq<(Seq<char>, Seq<char>)>)> {
        self.plugin_configs@.map_values(|e: (String, PluginConfig)| (e.0@, config_view(e.1@)))
    }

    /// Stores settings for a loaded plugin once the plugin accepts them; the plugin's own
    /// refusal comes back unchanged.
    pub fn set_plugin_config(&mut self, plugin_name: &str, config: PluginConfig) -> (r: Result<
        (),
        PluginError,
    >)
        requires
            old(self).wf(),
        ensures
            final(self).wf(),
            final(self).plugins() == old(self).plugins(),
            final(self).security() == old(self).security(),
            final(self).dir() == old(self).dir(),
            match index_of(old(self).manifests(), plugin_name@) {
                Some(i) => (r is Ok <==> old(self).plugins()[i].accepts_config(config_view(config@))),
                None => r matches Err(e) && e matches PluginError::NotFound(n) && n@ == plugin_name@,
            },
            r is Ok ==> stored_config(final(self).configs(), plugin_name@) == Some(config_view(config@)),
            r is Err ==> final(self).configs() == old(self).configs(),
            forall|n: Seq<char>| n != plugin_name@ ==> #[trigger] stored_config(final(self).configs(), n)
                == stored_config(old(self).configs(), n),
    {
        match self.position(plugin_name) {
            Some(i) => {
                proof {
                    lemma_index_of_unique(self.manifests(), i as int);
                }
                assert(self.plugins()[i as int] == self.plugins@[i as int]);
                match self.plugins[i].validate_config(&config) {
                    Ok(()) => {},
                    Err(e) => {
                        return Err(e);
                    },
                }
                let target = chars_of(plugin_name);
                let ghost cv = config_view(config@);
                let ghost before = self.configs();
                let mut k: usize = 0;
                while k < self.plugin_configs.len()
                    invariant
                        k <= self.plugin_configs@.len(),
                        target@ == plugin_name@,
                        self.plugin_configs == old(self).plugin_configs,
                        self.plugins == old(self).plugins,
                        self.plugins_dir == old(self).plugins_dir,
                        self.security_enabled == old(self).security_enabled,
                        old(self).wf(),
                        index_of(old(self).manifests(), plugin_name@) == Some(i as int),
                        old(self).plugins()[i as int].accepts_config(config_view(config@)),
                        before == old(self).configs(),
                        forall|q: int| 0 <= q < k ==> #[trigger] before[q].0 != plugin_name@,
                    decreases self.plugin_configs@.len() - k,
                {
                    if same_chars(&chars_of(self.plugin_configs[k].0.as_str()), &target) {
                        let ghost cfg_v = config_view(config@);
                        self.plugin_configs.set(k, (string_of(&target), config));
                        proof {
                            assert(self.configs() =~= before.update(k as int, (plugin_name@, cfg_v)));
                            lemma_stored_after_update(before, k as int, plugin_name@, cfg_v);
                        }
                        return Ok(());
                    }
                    k = k + 1;
                }
                let ghost cfg_v = config_view(config@);
                self.plugin_configs.push((string_of(&target), config));
                proof {
                    assert(self.configs() =~= before.push((plugin_name@, cfg_v)));
                    lemma_stored_after_push(before, plugin_name@, cfg_v);
                }
                Ok(())
            },
            None => {
                assert(!(exists|k: int| 0 <= k < self.manifests().len() && self.manifests()[k].name@ == plugin_name@));
                Err(PluginError::NotFound(string_of(&chars_of(plugin_name))))
            },
        }
    }
}

/// The settings stored for `name`: those of the first entry with that name.
pub open spec fn stored_config(
    cs: Seq<(Seq<char>, Seq<(Seq<char>, Seq<char>)>)>,
    name: Seq<char>,
) -> Option<Seq<(Seq<char>, Seq<char>)>>
    decreases cs.len(),
{
    if cs.len() == 0 {
        None
    } else if cs[0].0 == name {
        Some(cs[0].1)
    } else {
        stored_config(cs.drop_first(), name)
    }
}

proof fn lemma_stored_after_update(
    cs: Seq<(Seq<char>, Seq<(Seq<char>, Seq<char>)>)>,
    k: int,
    name: Seq<char>,
    v: Seq<(Seq<char>, Seq<char>)>,
)
    requires
        0 <= k < cs.len(),
        cs[k].0 == name,
        forall|q: int| 0 <= q < k ==> #[trigger] cs[q].0 != name,
    ensures
        stored_config(cs.update(k, (name, v)), name) == Some(v),
        forall|n: Seq<char>| n != name ==> #[trigger] stored_config(cs.update(k, (name, v)), n)
            == stored_config(cs, n),
    decreases k,
{
    let u = cs.update(k, (name, v));
    if k > 0 {
        assert(u.drop_first() =~= cs.drop_first().update(k - 1, (name, v)));
        assert forall|q: int| 0 <= q < k - 1 implies #[trigger] cs.drop_first()[q].0 != name by {
            assert(cs[q + 1].0 != name);
        }
        lemma_stored_after_update(cs.drop_first(), k - 1, name, v);
        assert(u[0] == cs[0]);
        assert forall|n: Seq<char>| n != name implies #[trigger] stored_config(u, n)
            == stored_config(cs, n) by {
            if cs[0].0 != n {
                assert(stored_config(cs.drop_first().update(k - 1, (name, v)), n) == stored_config(cs.drop_first(), n));
            }
        }
    } else {
        assert(u.drop_first() =~= cs.drop_first());
        assert forall|n: Seq<char>| n != name implies #[trigger] stored_config(u, n)
            == stored_config(cs, n) by {
        }
    }
}

proof fn lemma_stored_after_push(
    cs: Seq<(Seq<char>, Seq<(Seq<char>, Seq<char>)>)>,
    name: Seq<char>,
    v: Seq<(Seq<char>, Seq<char>)>,
)
    requires
        forall|q: int| 0 <= q < cs.len() ==> #[trigger] cs[q].0 != name,
    ensures
        stored_config(cs.push((name, v)), name) == Some(v),
        forall|n: Seq<char>| n != name ==> #[trigger] stored_config(cs.push((name, v)), n)
            == stored_config(cs, n),
    decreases cs.len(),
{
    let u = cs.push((name, v));
    if cs.len() > 0 {
        assert(u.drop_first() =~= cs.drop_first().push((name, v)));
        assert forall|q: int| 0 <= q < cs.len() - 1 implies #[trigger] cs.drop_first()[q].0 != name by {
            assert(cs[q + 1].0 != name);
        }
        lemma_stored_after_push(cs.drop_first(), name, v);
        assert forall|n: Seq<char>| n != name implies #[trigger] stored_config(u, n)
            == stored_config(cs, n) by {
            if cs[0].0 != n {
                assert(stored_config(cs.drop_first().push((name, v)), n) == stored_config(cs.drop_first(), n));
            }
        }
    } else {
        assert(u.drop_first() =~= Seq::<(Seq<char>, Seq<(Seq<char>, Seq<char>)>)>::empty());
        assert forall|n: Seq<char>| n != name implies #[trigger] stored_config(u, n)
            == stored_config(cs, n) by {
            assert(stored_config(u.drop_first(), n) is None);
        }
    }
}

} // verus!
