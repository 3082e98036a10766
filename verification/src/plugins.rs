//! Plugin option keys, stored plugin configuration and state, hook contexts, and the order in
//! which plugins hear a hook.
use vstd::prelude::*;
use vstd::string::*;

use crate::error::AppError;
use crate::json::{
    clone_json, get_member, lemma_object_view, lookup, merge_json_config, merged, entries_view,
    Json, JsonValue,
};
use crate::text::concat;

verus! {

/// The prefix of every option key that belongs to a plugin.
pub open spec fn option_prefix() -> Seq<char> {
    "plugin:"@
}

/// The option key under which a plugin's enabled/disabled state is stored.
pub open spec fn state_key_of(name: Seq<char>) -> Seq<char> {
    "plugin:"@ + name + ":state"@
}

/// The option key under which a plugin's configuration is stored.
pub open spec fn config_key_of(name: Seq<char>) -> Seq<char> {
    "plugin:"@ + name + ":config"@
}

/// `plugin:{name}:state`.
pub fn plugin_state_key(plugin_name: &str) -> (k: String)
    ensures
        k@ == state_key_of(plugin_name@),
{
    let mut k = concat("plugin:", plugin_name);
    k.append(":state");
    k
}

/// `plugin:{name}:config`.
pub fn plugin_config_key(plugin_name: &str) -> (k: String)
    ensures
        k@ == config_key_of(plugin_name@),
{
    let mut k = concat("plugin:", plugin_name);
    k.append(":config");
    k
}

/// The state a plugin has before anyone stores one: `{"enabled": false}`.
pub open spec fn default_state() -> Json {
    Json::Object(seq![("enabled"@, Json::Bool(false))])
}

/// `{"enabled": false}`.
pub fn default_plugin_state() -> (v: JsonValue)
    ensures
        v@ == default_state(),
{
    let mut members: Vec<(String, JsonValue)> = Vec::new();
    members.push(("enabled".to_owned(), JsonValue::Bool(false)));
    proof {
        lemma_object_view(members);
        assert(entries_view(members@) =~= seq![("enabled"@, Json::Bool(false))]);
    }
    JsonValue::Object(members)
}

/// The `config` member of a stored value, or the whole value when it has none.
pub open spec fn unwrapped_config(v: Json) -> Json {
    match v {
        Json::Object(es) => match lookup(es, "config"@) {
            Some(c) => c,
            None => v,
        },
        _ => v,
    }
}

/// A stored configuration may be wrapped as `{"config": ...}`; this gives what it wraps.
pub fn unwrap_config_envelope(value: JsonValue) -> (out: JsonValue)
    ensures
        out@ == unwrapped_config(value@),
{
    let inner = match get_member(&value, "config") {
        Some(c) => Some(clone_json(c)),
        None => None,
    };
    match inner {
        Some(c) => c,
        None => value,
    }
}

/// Whether a stored plugin state says the plugin is enabled: its `enabled` member is `true`.
/// A missing state, a missing member or a member that is not a boolean means disabled.
pub open spec fn state_enabled(state: Option<Json>) -> bool {
    match state {
        Some(Json::Object(es)) => lookup(es, "enabled"@) == Some(Json::Bool(true)),
        _ => false,
    }
}

/// Reads the enabled flag of a stored plugin state (`None` when no state is stored).
pub fn plugin_state_enabled(state: Option<&JsonValue>) -> (b: bool)
    ensures
        b == state_enabled(
            match state {
                Some(v) => Some(v@),
                None => None,
            },
        ),
{
    match state {
        Some(v) => match get_member(v, "enabled") {
            Some(JsonValue::Bool(b)) => *b,
            _ => false,
        },
        None => false,
    }
}

/// What a stored configuration contributes: the stored value (or the defaults when nothing is
/// stored), without its `config` envelope.
pub open spec fn config_patch(stored: Option<Json>, defaults: Json) -> Json {
    unwrapped_config(
        match stored {
            Some(v) => v,
            None => defaults,
        },
    )
}

/// The stored configuration without its envelope, or the defaults when nothing is stored.
pub fn plugin_config_patch(stored: Option<JsonValue>, defaults: &JsonValue) -> (out: JsonValue)
    ensures
        out@ == config_patch(
            match stored {
                Some(v) => Some(v@),
                None => None,
            },
            defaults@,
        ),
{
    let value = match stored {
        Some(v) => v,
        None => clone_json(defaults),
    };
    unwrap_config_envelope(value)
}

/// The configuration a plugin works with: its defaults with the (normalized) stored patch
/// merged over them.
pub fn effective_plugin_config(defaults: &JsonValue, patch: JsonValue) -> (out: JsonValue)
    ensures
        out@ == merged(defaults@, patch@),
{
    let mut out = clone_json(defaults);
    merge_json_config(&mut out, patch);
    out
}

} // verus!

verus! {

/// How a plugin answers a hook: whether it is enabled, and the priority it listens with
/// (`None` when it does not listen to the hook).
#[derive(Clone, Copy, Debug)]
pub struct ListenerCandidate {
    pub enabled: bool,
    pub priority: Option<i32>,
}

/// Candidate `i` hears the hook: it is enabled and listens.
pub open spec fn listens(c: Seq<ListenerCandidate>, i: int) -> bool {
    0 <= i < c.len() && c[i].enabled && c[i].priority is Some
}

pub open spec fn priority_at(c: Seq<ListenerCandidate>, i: int) -> int {
    c[i].priority->0 as int
}

/// Listener `i` comes before listener `j`: lower priority first, and the registration order
/// between equal priorities.
pub open spec fn runs_before(c: Seq<ListenerCandidate>, i: int, j: int) -> bool {
    priority_at(c, i) < priority_at(c, j) || (priority_at(c, i) == priority_at(c, j) && i < j)
}

/// `order` lists exactly the listening candidates, each once, in the order they run.
pub open spec fn is_listener_order(c: Seq<ListenerCandidate>, order: Seq<usize>) -> bool {
    &&& forall|k: int| 0 <= k < order.len() ==> listens(c, #[trigger] order[k] as int)
    &&& forall|i: int| listens(c, i) ==> exists|k: int| 0 <= k < order.len() && order[k] == i
    &&& forall|k: int, l: int| 0 <= k < l < order.len() ==> runs_before(c, #[trigger] order[k] as int, #[trigger] order[l] as int)
}

fn priority_above(c: &ListenerCandidate, p: i32) -> (b: bool)
    ensures
        b == (c.priority is Some && c.priority->0 > p),
{
    match c.priority {
        Some(q) => q > p,
        None => false,
    }
}

/// The plugins that hear a hook, in the order they run: the enabled plugins that listen to
/// it, sorted by priority, equal priorities in registration order.
pub fn listener_order(candidates: &Vec<ListenerCandidate>) -> (order: Vec<usize>)
    ensures
        is_listener_order(candidates@, order@),
{
    let ghost c = candidates@;
    let mut order: Vec<usize> = Vec::new();
    let mut i: usize = 0;
    while i < candidates.len()
        invariant
            c == candidates@,
            i <= c.len(),
            forall|k: int| 0 <= k < order@.len() ==> listens(c, #[trigger] order@[k] as int) && order@[k] < i,
            forall|j: int| 0 <= j < i && listens(c, j) ==> exists|k: int| 0 <= k < order@.len() && order@[k] == j,
            forall|k: int, l: int| 0 <= k < l < order@.len() ==> runs_before(c, #[trigger] order@[k] as int, #[trigger] order@[l] as int),
        decreases c.len() - i,
    {
        let cand = candidates[i];
        if cand.enabled && cand.priority.is_some() {
            let p = cand.priority.unwrap();
            // position: after every listener whose priority is not above p
            let mut pos: usize = order.len();
            while pos > 0 && priority_above(&candidates[order[pos - 1]], p)
                invariant
                    c == candidates@,
                    pos <= order@.len(),
                    i < c.len(),
                    listens(c, i as int),
                    p == c[i as int].priority->0,
                    forall|k: int| 0 <= k < order@.len() ==> listens(c, #[trigger] order@[k] as int) && order@[k] < i,
                    forall|k: int| pos <= k < order@.len() ==> priority_at(c, #[trigger] order@[k] as int) > p,
                decreases pos,
            {
                pos = pos - 1;
            }
            proof {
                if pos > 0 {
                    assert(priority_at(c, order@[pos - 1] as int) <= p);
                }
            }
            let ghost before = order@;
            order.insert(pos, i);
            proof {
                assert forall|k: int, l: int| 0 <= k < l < order@.len() implies runs_before(c, #[trigger] order@[k] as int, #[trigger] order@[l] as int) by {
                    if l < pos {
                        assert(order@[k] == before[k] && order@[l] == before[l]);
                    } else if k > pos {
                        assert(order@[k] == before[k - 1] && order@[l] == before[l - 1]);
                    } else if k == pos {
                        assert(order@[l] == before[l - 1]);
                    } else if l == pos {
                        assert(order@[k] == before[k]);
                        if k < pos - 1 {
                            assert(runs_before(c, before[k] as int, before[pos - 1] as int));
                        }
                    } else {
                        assert(order@[k] == before[k] && order@[l] == before[l - 1]);
                    }
                }
                assert forall|j: int| 0 <= j < i + 1 && listens(c, j) implies exists|k: int| 0 <= k < order@.len() && order@[k] == j by {
                    if j == i {
                        assert(order@[pos as int] == i);
                    } else {
                        let k0 = choose|k: int| 0 <= k < before.len() && before[k] == j;
                        if k0 < pos {
                            assert(order@[k0] == j);
                        } else {
                            assert(order@[k0 + 1] == j);
                        }
                    }
                }
                assert forall|k: int| 0 <= k < order@.len() implies listens(c, #[trigger] order@[k] as int) && order@[k] < i + 1 by {
                    if k < pos {
                        assert(order@[k] == before[k]);
                    } else if k > pos {
                        assert(order@[k] == before[k - 1]);
                    }
                }
            }
        }
        i = i + 1;
    }
    order
}

/// What the dispatcher does after a listener has run.
#[derive(Debug)]
pub enum DispatchStep {
    /// Hand the hook to the next listener.
    Continue,
    /// A listener stopped the hook: no further listener hears it.
    Stop,
    /// A listener failed: dispatching ends with this error.
    Fail(AppError),
}

/// The message of a listener's failure: `{plugin} failed on {hook}: {error}`.
pub open spec fn failure_message(plugin: Seq<char>, hook: Seq<char>, error: Seq<char>) -> Seq<char> {
    plugin + " failed on "@ + hook + ": "@ + error
}

/// The step that follows a listener: its error ends dispatching as a plugin error; otherwise a
/// stopped context ends it quietly; otherwise the next listener runs.
pub fn after_listener(plugin: &str, hook: &str, outcome: Result<(), AppError>, stopped: bool) -> (step: DispatchStep)
    ensures
        match outcome {
            Err(e) => step matches DispatchStep::Fail(AppError::Plugin(m)) && m@ == failure_message(
                plugin@,
                hook@,
                crate::error::message_of(e),
            ),
            Ok(()) => if stopped {
                step is Stop
            } else {
                step is Continue
            },
        },
{
    match outcome {
        Err(e) => {
            let mut m = concat(plugin, " failed on ");
            m.append(hook);
            m.append(": ");
            m.append(e.message().as_str());
            DispatchStep::Fail(AppError::Plugin(m))
        },
        Ok(()) => if stopped {
            DispatchStep::Stop
        } else {
            DispatchStep::Continue
        },
    }
}

/// How a plugin's route answers, given whether the plugin is enabled: served when enabled,
/// 404 when disabled, 500 when the state could not be read.
pub fn plugin_route_gate(enabled: Result<bool, AppError>) -> (r: Result<(), u16>)
    ensures
        match enabled {
            Ok(true) => r is Ok,
            Ok(false) => r == Err::<(), u16>(404),
            Err(_) => r == Err::<(), u16>(500),
        },
{
    match enabled {
        Ok(true) => Ok(()),
        Ok(false) => Err(404),
        Err(_) => Err(500),
    }
}

} // verus!

verus! {

#[verifier::external_type_specification]
#[verifier::external_body]
pub struct ExDatabaseConnection(sea_orm::DatabaseConnection);

/// What one hook dispatch carries from listener to listener: the subject of the hook,
/// free-form metadata, and whether a listener stopped it.
pub struct HookContext {
    pub db: Option<sea_orm::DatabaseConnection>,
    pub subject: Option<JsonValue>,
    pub meta: Vec<(String, JsonValue)>,
    pub stopped: bool,
    pub stop_reason: Option<String>,
}

impl HookContext {
    /// Whether a database is attached.
    pub open spec fn has_database(&self) -> bool {
        self.db is Some
    }

    /// A context with no subject, no metadata, not stopped and no database.
    pub fn new() -> (ctx: Self)
        ensures
            ctx.subject is None,
            ctx.meta@.len() == 0,
            !ctx.stopped,
            ctx.stop_reason is None,
            !ctx.has_database(),
    {
        HookContext { db: None, subject: None, meta: Vec::new(), stopped: false, stop_reason: None }
    }

    /// A fresh context whose subject is `subject`.
    pub fn with_subject(subject: JsonValue) -> (ctx: Self)
        ensures
            ctx.subject == Some(subject),
            ctx.meta@.len() == 0,
            !ctx.stopped,
            ctx.stop_reason is None,
            !ctx.has_database(),
    {
        HookContext { db: None, subject: Some(subject), meta: Vec::new(), stopped: false, stop_reason: None }
    }

    /// Attaches the database that listeners may use.
    pub fn attach_database(&mut self, db: sea_orm::DatabaseConnection)
        ensures
            final(self).has_database(),
            final(self).subject == old(self).subject,
            final(self).meta == old(self).meta,
            final(self).stopped == old(self).stopped,
            final(self).stop_reason == old(self).stop_reason,
    {
        self.db = Some(db);
    }

    /// The attached database; a plugin error when none is attached.
    pub fn database(&self) -> (r: Result<&sea_orm::DatabaseConnection, AppError>)
        ensures
            r is Ok <==> self.has_database(),
            r matches Err(e) ==> e matches AppError::Plugin(m) && m@ == "hook context has no database"@,
    {
        match &self.db {
            Some(db) => Ok(db),
            None => Err(AppError::Plugin("hook context has no database".to_owned())),
        }
    }

    /// Takes the subject out of the context, leaving none.
    pub fn take_subject(&mut self) -> (s: Option<JsonValue>)
        ensures
            s == old(self).subject,
            final(self).subject is None,
            final(self).meta == old(self).meta,
            final(self).stopped == old(self).stopped,
            final(self).stop_reason == old(self).stop_reason,
            final(self).has_database() == old(self).has_database(),
    {
        let mut s: Option<JsonValue> = None;
        std::mem::swap(&mut s, &mut self.subject);
        s
    }

    /// Replaces the subject.
    pub fn replace_subject(&mut self, subject: JsonValue)
        ensures
            final(self).subject == Some(subject),
            final(self).meta == old(self).meta,
            final(self).stopped == old(self).stopped,
            final(self).stop_reason == old(self).stop_reason,
            final(self).has_database() == old(self).has_database(),
    {
        self.subject = Some(subject);
    }

    /// Sets the metadata entry `key` to `value`.
    pub fn insert_meta(&mut self, key: String, value: JsonValue)
        ensures
            entries_view(final(self).meta@) == crate::json::set_member(
                entries_view(old(self).meta@),
                key@,
                value@,
            ),
            final(self).subject == old(self).subject,
            final(self).stopped == old(self).stopped,
            final(self).stop_reason == old(self).stop_reason,
            final(self).has_database() == old(self).has_database(),
    {
        crate::json::set_entry(&mut self.meta, key, value);
    }

    /// A copy of the metadata entry `key`, if there is one.
    pub fn meta_value(&self, key: &str) -> (r: Option<JsonValue>)
        ensures
            match r {
                Some(v) => lookup(entries_view(self.meta@), key@) == Some(v@),
                None => lookup(entries_view(self.meta@), key@) is None,
            },
    {
        match crate::json::find_member(&self.meta, key) {
            Some(i) => {
                proof {
                    let es = entries_view(self.meta@);
                    crate::json::lemma_key_at_unique(es, key@, i as int, crate::json::key_index(es, key@));
                }
                Some(clone_json(&self.meta[i].1))
            },
            None => None,
        }
    }

    /// Stops the hook: no further listener hears it.
    pub fn stop(&mut self, reason: String)
        ensures
            final(self).stopped,
            final(self).stop_reason == Some(reason),
            final(self).subject == old(self).subject,
            final(self).meta == old(self).meta,
            final(self).has_database() == old(self).has_database(),
    {
        self.stopped = true;
        self.stop_reason = Some(reason);
    }

    /// Whether a listener stopped the hook.
    pub fn is_stopped(&self) -> (b: bool)
        ensures
            b == self.stopped,
    {
        self.stopped
    }

    /// A plugin error carrying the stop reason when the hook was stopped
    /// (`hook stopped execution` when no reason was given).
    pub fn ensure_not_stopped(&self) -> (r: Result<(), AppError>)
        ensures
            r is Ok <==> !self.stopped,
            r matches Err(e) ==> e matches AppError::Plugin(m) && m@ == match self.stop_reason {
                Some(reason) => reason@,
                None => "hook stopped execution"@,
            },
    {
        if self.stopped {
            return Err(
                AppError::Plugin(
                    match &self.stop_reason {
                        Some(reason) => reason.clone(),
                        None => "hook stopped execution".to_owned(),
                    },
                ),
            );
        }
        Ok(())
    }
}

impl Default for HookContext {
    fn default() -> (ctx: Self)
        ensures
            ctx.subject is None,
            ctx.meta@.len() == 0,
            !ctx.stopped,
            ctx.stop_reason is None,
            !ctx.has_database(),
    {
        HookContext::new()
    }
}

} // verus!

verus! {

/// What a plugin says about itself.
#[derive(Clone, Debug)]
pub struct PluginManifest {
    pub name: &'static str,
    pub version: &'static str,
    pub description: &'static str,
    pub author: &'static str,
}

/// An entry a plugin adds to the admin menu.
#[derive(Clone, Debug)]
pub struct AdminMenuItem {
    pub label: &'static str,
    pub path: &'static str,
    pub icon: Option<&'static str>,
    pub order: i32,
}

/// The kind of input a plugin configuration field takes.
#[derive(Clone, Copy, Debug, PartialEq, Eq, Structural)]
pub enum PluginConfigFieldType {
    Text,
    Textarea,
    Number,
    Boolean,
    Json,
}

/// One field of a plugin's configuration form.
#[derive(Debug)]
pub struct PluginConfigField {
    pub key: &'static str,
    pub label: &'static str,
    pub field_type: PluginConfigFieldType,
    pub required: bool,
    pub default: Option<JsonValue>,
    pub help: Option<&'static str>,
}

/// The configuration form of a plugin.
#[derive(Debug)]
pub struct PluginConfigSchema {
    pub fields: Vec<PluginConfigField>,
}

} // verus!
