//! Plugin-first execution: free text that no intent rule claimed goes to the plugin that
//! claims it, and everything else, or anything a plugin does not handle, to a fallback.
use crate::engine::{EngineError, EngineEvent, Intent};
use crate::plugin::{
    config_view, index_of, lemma_index_of_unique, param_entries, stored_config, fires_at, first_hit, Plugin, PluginConfig, PluginError, PluginEvent, PluginManager,
    PluginManifest, PluginResult,
};
use crate::text::{cat, chars_of, string_of};
use crate::weather::{weather_name, WeatherPlugin};
use vstd::prelude::*;

verus! {

/// The text of the notification event relayed for each notification a plugin reported.
pub open spec fn notification_texts(evs: Seq<PluginEvent>) -> Seq<Seq<char>>
    decreases evs.len(),
{
    if evs.len() == 0 {
        Seq::empty()
    } else {
        let rest = notification_texts(evs.drop_last());
        match evs.last() {
            PluginEvent::Notification { title, body } => rest.push(title@ + ": "@ + body@),
            _ => rest,
        }
    }
}

/// The plugin events that are not notifications, in order.
pub open spec fn other_events(evs: Seq<PluginEvent>) -> Seq<PluginEvent>
    decreases evs.len(),
{
    if evs.len() == 0 {
        Seq::empty()
    } else {
        let rest = other_events(evs.drop_last());
        match evs.last() {
            PluginEvent::Notification { .. } => rest,
            e => rest.push(e),
        }
    }
}

/// Each event is a notification with the given text.
pub open spec fn notifications_of(evs: Seq<EngineEvent>, texts: Seq<Seq<char>>) -> bool {
    evs.len() == texts.len() && forall|k: int|
        0 <= k < evs.len() ==> (#[trigger] evs[k] matches EngineEvent::Notification(m) && m@
            == texts[k])
}

/// How an intent is served.
pub enum Dispatch {
    /// A plugin answered: its response, the notifications to publish, and its other events.
    Handled { response: String, notifications: Vec<EngineEvent>, other: Vec<PluginEvent> },
    /// The fallback executor must serve the intent.
    Fallback,
}

/// Splits a plugin's events into notifications to publish and the rest.
pub fn relay_events(evs: Vec<PluginEvent>) -> (r: (Vec<EngineEvent>, Vec<PluginEvent>))
    ensures
        notifications_of(r.0@, notification_texts(evs@)),
        r.1@ == other_events(evs@),
{
    let ghost all = evs@;
    let mut notes: Vec<EngineEvent> = Vec::new();
    let mut rest: Vec<PluginEvent> = Vec::new();
    let mut src = evs;
    let mut taken: Vec<PluginEvent> = Vec::new();
    // Move the events out front to back.
    let mut i: usize = 0;
    let n = src.len();
    while i < n
        invariant
            n == all.len(),
            i <= n,
            src@ == all.subrange(i as int, n as int),
            notifications_of(notes@, notification_texts(all.subrange(0, i as int))),
            rest@ == other_events(all.subrange(0, i as int)),
        decreases n - i,
    {
        let e = src.remove(0);
        let ghost pre = all.subrange(0, i as int);
        assert(all.subrange(0, i + 1).drop_last() =~= pre);
        assert(all.subrange(0, i + 1).last() == e);
        assert(src@ =~= all.subrange(i + 1, n as int));
        match e {
            PluginEvent::Notification { title, body } => {
                let text = cat(cat(title.as_str(), ": ").as_str(), body.as_str());
                notes.push(EngineEvent::Notification(text));
            },
            other => {
                rest.push(other);
            },
        }
        i = i + 1;
    }
    assert(all.subrange(0, n as int) =~= all);
    (notes, rest)
}

/// `r` is the dispatch for a plugin's outcome: a successful result is the answer, with its
/// message and its events relayed; a failure or an unsuccessful result falls back.
pub open spec fn dispatch_of(outcome: Result<PluginResult, PluginError>, r: Dispatch) -> bool {
    match outcome {
        Ok(res) => if res.success {
            r matches Dispatch::Handled { response, notifications, other } && response@
                == res.message@ && notifications_of(notifications@, notification_texts(res.events@))
                && other@ == other_events(res.events@)
        } else {
            r is Fallback
        },
        Err(_) => r is Fallback,
    }
}

/// `r` is how `text` is served by the plugins of `m`: it falls back when no pattern fires;
/// otherwise the first plugin to claim it answers its intent with the extracted parameters,
/// and `r` is the dispatch for that answer.
pub open spec fn served<P: Plugin>(m: PluginManager<P>, text: Seq<char>, r: Dispatch) -> bool {
    let ms = m.manifests();
    if exists|i: int, j: int| fires_at(ms, text, i, j) {
        exists|i: int, j: int, out: Result<PluginResult, PluginError>|
            #![trigger first_hit(ms, text, i, j), dispatch_of(out, r)]
            first_hit(ms, text, i, j) && m.plugins()[i].answers(
                ms[i].intent_patterns@[j].name@,
                param_entries(ms[i].intent_patterns@[j].parameters@, text),
                out,
            ) && dispatch_of(out, r)
    } else {
        r is Fallback
    }
}

/// The dispatch for a plugin's outcome.
pub fn plugin_response(outcome: Result<PluginResult, PluginError>) -> (r: Dispatch)
    ensures
        dispatch_of(outcome, r),
{
    match outcome {
        Ok(res) => {
            if res.success {
                let (notifications, other) = relay_events(res.events);
                Dispatch::Handled { response: res.message, notifications, other }
            } else {
                Dispatch::Fallback
            }
        },
        Err(_) => Dispatch::Fallback,
    }
}

/// The default plugin directory.
pub open spec fn default_plugins_dir() -> Seq<char> {
    "~/.friday/plugins"@
}

/// Routes unclaimed free text to plugins before the fallback.
pub struct PluginExecutor<P: Plugin> {
    plugin_manager: PluginManager<P>,
}

impl<P: Plugin> PluginExecutor<P> {
    pub closed spec fn manager(&self) -> PluginManager<P> {
        self.plugin_manager
    }

    pub open spec fn wf(&self) -> bool {
        self.manager().wf()
    }

    /// An executor over the given plugins.
    pub fn from_manager(plugin_manager: PluginManager<P>) -> (r: PluginExecutor<P>)
        ensures
            r.manager() == plugin_manager,
            plugin_manager.wf() ==> r.wf(),
    {
        PluginExecutor { plugin_manager }
    }

    /// Lets the plugin that claims `text` serve it; falls back when none claims it or the
    /// plugin fails or reports no success.
    pub fn try_plugin_execution(&self, text: &str) -> (r: Dispatch)
        requires
            self.wf(),
        ensures
            served(self.manager(), text@, r),
    {
        let found = self.plugin_manager.find_plugin_for_intent(text);
        match found {
            Some((plugin_name, intent, parameters)) => {
                proof {
                    let ms = self.manager().manifests();
                    let t = text@;
                    let w = choose|i: int, j: int|
                        first_hit(ms, t, i, j) && plugin_name@ == ms[i].name@ && intent@
                            == ms[i].intent_patterns@[j].name@ && crate::plugin::params_view(
                            parameters@,
                        ) == crate::plugin::param_entries(ms[i].intent_patterns@[j].parameters@, t);
                    assert(first_hit(ms, t, w.0, w.1));
                    assert(fires_at(ms, t, w.0, w.1));
                    lemma_index_of_unique(ms, w.0);
                }
                let outcome = self.plugin_manager.execute_plugin(
                    plugin_name.as_str(),
                    intent.as_str(),
                    &parameters,
                );
                let r = plugin_response(outcome);
                proof {
                    let ms = self.manager().manifests();
                    let t = text@;
                    let w = choose|i: int, j: int|
                        first_hit(ms, t, i, j) && plugin_name@ == ms[i].name@ && intent@
                            == ms[i].intent_patterns@[j].name@ && crate::plugin::params_view(
                            parameters@,
                        ) == crate::plugin::param_entries(ms[i].intent_patterns@[j].parameters@, t);
                    lemma_index_of_unique(ms, w.0);
                    assert(fires_at(ms, t, w.0, w.1));
                    assert(dispatch_of(outcome, r));
                }
                r
            },
            None => Dispatch::Fallback,
        }
    }

    /// Free text that the intent rules left unknown is offered to the plugins; every other
    /// intent goes to the fallback.
    pub fn execute(&self, intent: &Intent) -> (r: Dispatch)
        requires
            self.wf(),
        ensures
            !(intent is Unknown) ==> r is Fallback,
            intent matches Intent::Unknown { text } ==> served(self.manager(), text@, r),
    {
        match intent {
            Intent::Unknown { text } => self.try_plugin_execution(text.as_str()),
            _ => Dispatch::Fallback,
        }
    }

    /// One line per loaded plugin: `name vVERSION - DESCRIPTION`.
    pub fn list_plugins(&self) -> (r: Vec<String>)
        requires
            self.wf(),
        ensures
            r@.len() == self.manager().manifests().len(),
            forall|k: int|
                0 <= k < r@.len() ==> #[trigger] r@[k]@ == self.manager().manifests()[k].name@
                    + " v"@ + self.manager().manifests()[k].version@ + " - "@
                    + self.manager().manifests()[k].description@,
    {
        let ms = self.plugin_manager.list_plugins();
        let mut out: Vec<String> = Vec::new();
        let mut k: usize = 0;
        while k < ms.len()
            invariant
                k <= ms@.len(),
                ms@.len() == self.manager().manifests().len(),
                forall|q: int| 0 <= q < ms@.len() ==> *ms@[q] == self.manager().manifests()[q],
                out@.len() == k,
                forall|q: int|
                    0 <= q < k ==> #[trigger] out@[q]@ == self.manager().manifests()[q].name@
                        + " v"@ + self.manager().manifests()[q].version@ + " - "@
                        + self.manager().manifests()[q].description@,
            decreases ms@.len() - k,
        {
            let m: &PluginManifest = ms[k];
            let line = cat(
                cat(cat(cat(m.name.as_str(), " v").as_str(), m.version.as_str()).as_str(), " - ").as_str(),
                m.description.as_str(),
            );
            out.push(line);
            k = k + 1;
        }
        out
    }

    /// Stores settings for a loaded plugin.
    pub fn configure_plugin(&mut self, plugin_name: &str, config: PluginConfig) -> (r: Result<
        (),
        EngineError,
    >)
        requires
            old(self).wf(),
        ensures
            final(self).wf(),
            final(self).manager().plugins() == old(self).manager().plugins(),
            match index_of(old(self).manager().manifests(), plugin_name@) {
                Some(i) => (r is Ok <==> old(self).manager().plugins()[i].accepts_config(
                    config_view(config@),
                )),
                None => r is Err,
            },
            r is Ok ==> stored_config(final(self).manager().configs(), plugin_name@) == Some(
                config_view(config@),
            ),
    {
        let ghost cv = config_view(config@);
        let res = self.plugin_manager.set_plugin_config(plugin_name, config);
        assert(self.manager() == self.plugin_manager);
        match res {
            Ok(()) => Ok(()),
            Err(e) => Err(
                EngineError::Audio(cat("Failed to configure plugin: ", e.describe().as_str())),
            ),
        }
    }
}

/// Loads the built-in weather plugin into `manager`.
fn load_builtin(manager: &mut PluginManager<WeatherPlugin>) -> (r: Result<(), EngineError>)
    requires
        old(manager).wf(),
    ensures
        final(manager).wf(),
        final(manager).security() == old(manager).security(),
        final(manager).dir() == old(manager).dir(),
        r is Ok,
        old(manager).manifests().len() == 0 ==> (final(manager).manifests().len() == 1
            && final(manager).manifests()[0].name@ == weather_name()),
{
    let plugin = WeatherPlugin::new();
    proof {
        if old(manager).manifests().len() == 0 {
            assert(index_of(old(manager).manifests(), plugin.spec_manifest().name@) is None);
        }
    }
    match manager.load_plugin(plugin) {
        Ok(()) => Ok(()),
        Err(e) => Err(
            EngineError::Audio(cat("Failed to load weather plugin: ", e.describe().as_str())),
        ),
    }
}

impl PluginExecutor<WeatherPlugin> {
    /// An executor with no plugins yet, keeping plugin data under the default directory.
    pub fn new() -> (r: PluginExecutor<WeatherPlugin>)
        ensures
            r.wf(),
            r.manager().manifests().len() == 0,
            r.manager().dir() == default_plugins_dir(),
    {
        PluginExecutor { plugin_manager: PluginManager::new("~/.friday/plugins") }
    }

    /// Loads the built-in plugins.
    pub fn initialize(&mut self) -> (r: Result<(), EngineError>)
        requires
            old(self).wf(),
        ensures
            final(self).wf(),
            r is Ok,
            old(self).manager().manifests().len() == 0 ==> (final(self).manager().manifests().len()
                == 1 && final(self).manager().manifests()[0].name@ == weather_name()),
    {
        load_builtin(&mut self.plugin_manager)
    }
}

/// Assembles a plugin executor.
pub struct PluginExecutorBuilder {
    pub plugins_dir: Option<String>,
    pub security_enabled: bool,
    pub builtin_plugins: bool,
}

impl PluginExecutorBuilder {
    /// The default directory, security on, built-in plugins loaded.
    pub fn new() -> (r: PluginExecutorBuilder)
        ensures
            r.plugins_dir is None && r.security_enabled && r.builtin_plugins,
    {
        PluginExecutorBuilder { plugins_dir: None, security_enabled: true, builtin_plugins: true }
    }

    pub fn with_plugins_dir(self, dir: String) -> (r: PluginExecutorBuilder)
        ensures
            r.plugins_dir == Some(dir) && r.security_enabled == self.security_enabled
                && r.builtin_plugins == self.builtin_plugins,
    {
        PluginExecutorBuilder { plugins_dir: Some(dir), ..self }
    }

    pub fn with_security(self, enabled: bool) -> (r: PluginExecutorBuilder)
        ensures
            r.plugins_dir == self.plugins_dir && r.security_enabled == enabled
                && r.builtin_plugins == self.builtin_plugins,
    {
        PluginExecutorBuilder { security_enabled: enabled, ..self }
    }

    pub fn with_builtin_plugins(self, enabled: bool) -> (r: PluginExecutorBuilder)
        ensures
            r.plugins_dir == self.plugins_dir && r.security_enabled == self.security_enabled
                && r.builtin_plugins == enabled,
    {
        PluginExecutorBuilder { builtin_plugins: enabled, ..self }
    }

    /// The executor this builder describes.
    pub fn build(self) -> (r: Result<PluginExecutor<WeatherPlugin>, EngineError>)
        ensures
            r is Ok,
            r matches Ok(x) ==> x.wf() && x.manager().security() == self.security_enabled
                && x.manager().dir() == match self.plugins_dir {
                    Some(d) => d@,
                    None => default_plugins_dir(),
                } && (!self.builtin_plugins ==> x.manager().manifests().len() == 0) && (
                self.builtin_plugins ==> (x.manager().manifests().len() == 1
                    && x.manager().manifests()[0].name@ == weather_name())),
    {
        let dir = match self.plugins_dir {
            Some(d) => d,
            None => string_of(&chars_of("~/.friday/plugins")),
        };
        let mut manager: PluginManager<WeatherPlugin> = PluginManager::new(dir.as_str());
        manager = manager.with_security(self.security_enabled);
        if self.builtin_plugins {
            load_builtin(&mut manager)?;
        }
        Ok(PluginExecutor { plugin_manager: manager })
    }
}

} // verus!
