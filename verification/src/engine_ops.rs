//! The engine's background decisions: what a due automation does, when the idle heartbeat
//! asks the model, which settings changes touch secrets and tools, and how the helper for
//! computer use is answered. The caller runs the timers, stores and subprocesses.

use vstd::prelude::*;

use crate::json::{
    json_array_items, json_bool_field, json_get_array_items, json_get_bool, json_get_object_entries,
    json_get_pointer_text, json_get_str, json_object_entries, json_pointer_text, json_str_field, json_string_value,
    json_as_string, json_valid, parses_as_json,
};
use crate::render_text::lemma_filter_step;
use crate::text::{
    append_str, chars_of, decimal, decimal_string, find_spec, find_str, has_prefix, lowercase, starts_with, str_eq,
    to_lowercase, trim, trim_spec,
};

verus! {

// ── memory ──

/// What the memory pipeline is handed for one message of a session.
pub struct ProcessRequest {
    pub session_id: String,
    pub text: String,
    pub context: String,
}

impl ProcessRequest {
    /// The request that feeds one message, with its context, to the memory pipeline.
    pub fn new(session_id: &str, text: &str, context: &str) -> (r: Self)
        ensures
            r.session_id@ == session_id@,
            r.text@ == text@,
            r.context@ == context@,
    {
        ProcessRequest {
            session_id: String::from_str(session_id),
            text: String::from_str(text),
            context: String::from_str(context),
        }
    }
}

// ── automations ──

/// How an automation runs: a direct action, or (for any other) an agent session.
pub enum AutomationExecutor {
    DirectAction { action: String, title: Option<String>, body: Option<String> },
    AgentSession,
}

/// An automation that is due.
pub struct DueJob {
    pub id: String,
    pub label: String,
    pub prompt: String,
    pub executor: Option<AutomationExecutor>,
}

/// What a due automation does.
pub enum JobRun {
    /// Store a notification with this title and body.
    Notify { title: String, body: String },
    /// Send this message in this session.
    Agent { session_id: String, message: String },
}

/// A `notify` action stores a notification (titled by its title, else the job's label; its
/// body, else empty); any other job sends its prompt, under a heading with its label, in the
/// session `cron-<id>`.
pub fn plan_job(job: &DueJob) -> (r: JobRun)
    ensures
        match job.executor {
            Some(AutomationExecutor::DirectAction { action, title, body }) if action@ == "notify"@ => {
                r matches JobRun::Notify { title: t, body: b } && t@ == (match title {
                    Some(x) => x@,
                    None => job.label@,
                }) && b@ == (match body {
                    Some(x) => x@,
                    None => Seq::empty(),
                })
            },
            _ => r matches JobRun::Agent { session_id, message } && session_id@ == "cron-"@ + job.id@
                && message@ == "[\u{5b9a}\u{65f6}\u{4efb}\u{52a1}: "@ + job.label@ + "]\n\n"@ + job.prompt@,
        },
{
    match &job.executor {
        Some(AutomationExecutor::DirectAction { action, title, body }) => {
            if str_eq(action.as_str(), "notify") {
                let t = match title {
                    Some(x) => x.clone(),
                    None => job.label.clone(),
                };
                let b = match body {
                    Some(x) => x.clone(),
                    None => String::new(),
                };
                return JobRun::Notify { title: t, body: b };
            }
        },
        _ => {},
    }
    let mut session_id = String::from_str("cron-");
    append_str(&mut session_id, job.id.as_str());
    let mut message = String::from_str("[\u{5b9a}\u{65f6}\u{4efb}\u{52a1}: ");
    append_str(&mut message, job.label.as_str());
    append_str(&mut message, "]\n\n");
    append_str(&mut message, job.prompt.as_str());
    JobRun::Agent { session_id, message }
}

// ── the idle heartbeat ──

/// On a heartbeat tick: when the agent is idle and the user has been away for at least the
/// threshold (in whole minutes), the question put to the model.
pub fn heartbeat_question(agent_idle: bool, idle_secs: u64, idle_threshold_min: u64) -> (r: Option<String>)
    ensures
        agent_idle && idle_secs / 60 >= idle_threshold_min ==> (r matches Some(q) && q@ == "User idle "@ + decimal(
            (idle_secs / 60) as nat,
        ) + " min. Should agent take action? Reply ONLY yes or no."@),
        !(agent_idle && idle_secs / 60 >= idle_threshold_min) ==> r is None,
{
    if !agent_idle {
        return None;
    }
    let minutes = idle_secs / 60;
    if minutes < idle_threshold_min {
        return None;
    }
    let mut q = String::from_str("User idle ");
    append_str(&mut q, decimal_string(minutes).as_str());
    append_str(&mut q, " min. Should agent take action? Reply ONLY yes or no.");
    Some(q)
}

/// Whether the model's answer says yes: it holds `yes` once trimmed and lowercased.
pub fn heartbeat_says_yes(answer: &str) -> (b: bool)
    ensures
        b == (find_spec(lowercase(trim_spec(answer@)), "yes"@) is Some),
{
    let t = trim(answer);
    let l = to_lowercase(t.as_str());
    let v = chars_of(l.as_str());
    match find_str(&v, "yes") {
        Some(_) => true,
        None => false,
    }
}

// ── settings changes ──

/// Whether a settings change may carry API keys to be moved into the secrets file.
pub fn change_may_carry_keys(key: &str) -> (b: bool)
    ensures
        b == (key@ == "general"@ || has_prefix(key@, "settings."@)),
{
    let v = chars_of(key);
    str_eq(key, "general") || starts_with(&v, "settings.")
}

/// Whether a settings change sets the disabled tools anew.
pub fn change_touches_tools(key: &str) -> (b: bool)
    ensures
        b == (key@ == "settings.tools"@ || key@ == "settings"@),
{
    str_eq(key, "settings.tools") || str_eq(key, "settings")
}

/// The strings of a list (JSON texts), in order; other items are left out.
pub open spec fn string_items(items: Seq<Seq<char>>) -> Seq<Seq<char>>
    decreases items.len(),
{
    if items.len() == 0 {
        Seq::empty()
    } else {
        match json_string_value(items.last()) {
            Some(s) => string_items(items.drop_last()).push(s),
            None => string_items(items.drop_last()),
        }
    }
}

pub open spec fn strings_view(v: Seq<String>) -> Seq<Seq<char>> {
    Seq::new(v.len(), |i: int| v[i]@)
}

/// The names of the disabled tools: the strings listed under `tools.disabled` of the
/// settings (JSON text); none when there is no such list.
pub fn disabled_tools(settings: &str) -> (r: Vec<String>)
    ensures
        strings_view(r@) == match json_pointer_text(settings@, "/tools"@) {
            Some(t) => match json_array_items(t, "disabled"@) {
                Some(items) => string_items(items),
                None => Seq::empty(),
            },
            None => Seq::empty(),
        },
{
    let tools = match json_get_pointer_text(settings, "/tools") {
        Some(t) => t,
        None => {
            let r: Vec<String> = Vec::new();
            assert(strings_view(r@) =~= Seq::<Seq<char>>::empty());
            return r;
        },
    };
    let items = match json_get_array_items(tools.as_str(), "disabled") {
        Some(v) => v,
        None => {
            let r: Vec<String> = Vec::new();
            assert(strings_view(r@) =~= Seq::<Seq<char>>::empty());
            return r;
        },
    };
    let ghost its = Seq::new(items@.len(), |j: int| items@[j]@);
    let mut r: Vec<String> = Vec::new();
    let mut i: usize = 0;
    while i < items.len()
        invariant
            i <= items@.len(),
            its == Seq::new(items@.len(), |j: int| items@[j]@),
            strings_view(r@) == string_items(its.take(i as int)),
        decreases items@.len() - i,
    {
        assert(its.take(i + 1).drop_last() =~= its.take(i as int));
        assert(its.take(i + 1).last() == its[i as int]);
        match json_as_string(items[i].as_str()) {
            Some(s) => {
                let ghost before = r@;
                r.push(s);
                assert(strings_view(r@) =~= strings_view(before).push(r@.last()@));
            },
            None => {},
        }
        i = i + 1;
    }
    assert(its.take(items@.len() as int) =~= its);
    r
}

/// What becomes of a provider's API key when its settings are saved.
pub enum KeyAction {
    /// The provider was removed: remove its secret.
    DeleteSecret { provider: String },
    /// Store the key as the provider's secret; its settings then refer to the secret.
    StoreSecret { provider: String, api_key: String },
    /// An empty key: drop it and mark the provider as having none.
    ClearKey { provider: String },
}

/// The action for one provider (name, settings as JSON text), if any.
pub open spec fn key_action_spec(name: Seq<char>, value: Seq<char>) -> Option<(int, Seq<char>, Seq<char>)> {
    if value == "null"@ {
        Some((0, name, Seq::empty()))
    } else {
        match json_str_field(value, "api_key"@) {
            Some(k) => if k.len() > 0 {
                Some((1, name, k))
            } else {
                Some((2, name, Seq::empty()))
            },
            None => None,
        }
    }
}

pub open spec fn action_view(a: KeyAction) -> (int, Seq<char>, Seq<char>) {
    match a {
        KeyAction::DeleteSecret { provider } => (0, provider@, Seq::empty()),
        KeyAction::StoreSecret { provider, api_key } => (1, provider@, api_key@),
        KeyAction::ClearKey { provider } => (2, provider@, Seq::empty()),
    }
}

/// The actions for the providers (in order), as the entries of `providers` give them.
pub open spec fn key_actions_spec(es: Seq<(Seq<char>, Seq<char>)>) -> Seq<(int, Seq<char>, Seq<char>)>
    decreases es.len(),
{
    if es.len() == 0 {
        Seq::empty()
    } else {
        match key_action_spec(es.last().0, es.last().1) {
            Some(a) => key_actions_spec(es.drop_last()).push(a),
            None => key_actions_spec(es.drop_last()),
        }
    }
}

/// The key actions of a settings change (JSON text): one per provider under `providers` that
/// was removed or carries an `api_key`.
pub fn api_key_actions(value: &str) -> (r: Vec<KeyAction>)
    ensures
        Seq::new(r@.len(), |i: int| action_view(r@[i])) == match json_pointer_text(value@, "/providers"@) {
            Some(p) => match json_object_entries(p) {
                Some(es) => key_actions_spec(es),
                None => Seq::empty(),
            },
            None => Seq::empty(),
        },
{
    let mut r: Vec<KeyAction> = Vec::new();
    let providers = match json_get_pointer_text(value, "/providers") {
        Some(p) => p,
        None => {
            assert(Seq::new(r@.len(), |i: int| action_view(r@[i])) =~= Seq::<(int, Seq<char>, Seq<char>)>::empty());
            return r;
        },
    };
    let entries = match json_get_object_entries(providers.as_str()) {
        Some(e) => e,
        None => {
            assert(Seq::new(r@.len(), |i: int| action_view(r@[i])) =~= Seq::<(int, Seq<char>, Seq<char>)>::empty());
            return r;
        },
    };
    let ghost es = Seq::new(entries@.len(), |i: int| (entries@[i].0@, entries@[i].1@));
    let mut i: usize = 0;
    while i < entries.len()
        invariant
            i <= entries@.len(),
            es == Seq::new(entries@.len(), |i: int| (entries@[i].0@, entries@[i].1@)),
            Seq::new(r@.len(), |k: int| action_view(r@[k])) == key_actions_spec(es.take(i as int)),
        decreases entries@.len() - i,
    {
        assert(es.take(i + 1).drop_last() =~= es.take(i as int));
        assert(es.take(i + 1).last() == es[i as int]);
        let ghost before = Seq::new(r@.len(), |k: int| action_view(r@[k]));
        let name = &entries[i].0;
        let v = entries[i].1.as_str();
        if str_eq(v, "null") {
            r.push(KeyAction::DeleteSecret { provider: name.clone() });
            assert(Seq::new(r@.len(), |k: int| action_view(r@[k])) =~= before.push((0, name@, Seq::empty())));
        } else {
            match json_get_str(v, "api_key") {
                Some(k) => {
                    if !k.as_str().is_empty() {
                        let ghost kv = k@;
                        r.push(KeyAction::StoreSecret { provider: name.clone(), api_key: k });
                        assert(Seq::new(r@.len(), |j: int| action_view(r@[j])) =~= before.push((1, name@, kv)));
                    } else {
                        r.push(KeyAction::ClearKey { provider: name.clone() });
                        assert(Seq::new(r@.len(), |j: int| action_view(r@[j])) =~= before.push((2, name@, Seq::empty())));
                    }
                },
                None => {},
            }
        }
        i = i + 1;
    }
    assert(es.take(entries@.len() as int) =~= es);
    r
}

// ── computer use ──

/// The helper's answer (its output, JSON text once trimmed): the `data` it returns when it
/// reports `ok` (an empty object when it returns none), else its `message` (or `unknown
/// error`); output that is no JSON is an error of its own.
pub open spec fn helper_reply_spec(out: Seq<char>, r: Result<String, String>) -> bool {
    let t = trim_spec(out);
    if !json_valid(t) {
        r matches Err(e) && e@ == "UIA helper returned invalid JSON"@
    } else if json_bool_field(t, "ok"@) == Some(true) {
        r matches Ok(d) && d@ == match json_pointer_text(t, "/data"@) {
            Some(x) => x,
            None => "{}"@,
        }
    } else {
        r matches Err(e) && e@ == match json_str_field(t, "message"@) {
            Some(m) => m,
            None => "unknown error"@,
        }
    }
}

pub fn helper_reply(out: &str) -> (r: Result<String, String>)
    ensures
        helper_reply_spec(out@, r),
{
    let t = trim(out);
    if !parses_as_json(t.as_str()) {
        return Err(String::from_str("UIA helper returned invalid JSON"));
    }
    match json_get_bool(t.as_str(), "ok") {
        Some(true) => match json_get_pointer_text(t.as_str(), "/data") {
            Some(d) => Ok(d),
            None => Ok(String::from_str("{}")),
        },
        _ => match json_get_str(t.as_str(), "message") {
            Some(m) => Err(m),
            None => Err(String::from_str("unknown error")),
        },
    }
}

} // verus!
