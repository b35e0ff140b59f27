//! The engine's decisions around a conversation: the permission mode of each session, how the
//! system prompt is put together, which model answers, and how streamed tokens are handled.
//! The caller holds the model clients and the event bus, and hands their state over.

use vstd::prelude::*;

use crate::bridge_types::{platform_name, MessageContent, Platform};
use crate::json::{json_get_nested_str, json_nested_str_field};
use crate::render_text::lemma_filter_step;
use crate::text::{
    append_str, chars_of, has_prefix, lowercase, replace_all, replace_from, starts_with, str_eq, string_of, to_lowercase,
    trim, trim_spec,
};

verus! {

// ── permission modes ──

/// A mode as it is kept: `operate`, `ask` or `read_only`; anything else becomes `ask`.
pub open spec fn normalized_mode(mode: Seq<char>) -> Seq<char> {
    if mode == "operate"@ || mode == "ask"@ || mode == "read_only"@ {
        mode
    } else {
        "ask"@
    }
}

pub fn normalize_permission_mode(mode: &str) -> (r: String)
    ensures
        r@ == normalized_mode(mode@),
{
    if str_eq(mode, "operate") || str_eq(mode, "ask") || str_eq(mode, "read_only") {
        String::from_str(mode)
    } else {
        String::from_str("ask")
    }
}

/// The mode of the first entry for `k` (entries are looked at from the front).
pub open spec fn lookup_mode(s: Seq<(Seq<char>, Seq<char>)>, k: Seq<char>) -> Option<Seq<char>>
    decreases s.len(),
{
    if s.len() == 0 {
        None
    } else {
        match lookup_mode(s.drop_last(), k) {
            Some(v) => Some(v),
            None => if s.last().0 == k {
                Some(s.last().1)
            } else {
                None
            },
        }
    }
}

pub open spec fn entries_view(v: Seq<(String, String)>) -> Seq<(Seq<char>, Seq<char>)> {
    Seq::new(v.len(), |i: int| (v[i].0@, v[i].1@))
}

/// The permission mode of each session, and the mode of sessions that have none of their own.
pub struct PermissionModes {
    default_mode: String,
    sessions: Vec<(String, String)>,
}

proof fn lemma_lookup_found(s: Seq<(Seq<char>, Seq<char>)>, i: int, k: Seq<char>, j: int)
    requires
        0 <= i < j <= s.len(),
        lookup_mode(s.take(i), k) is None,
        s[i].0 == k,
    ensures
        lookup_mode(s.take(j), k) == Some(s[i].1),
    decreases j,
{
    assert(s.take(j).drop_last() =~= s.take(j - 1));
    if j > i + 1 {
        lemma_lookup_found(s, i, k, j - 1);
    } else {
        assert(s.take(j).last() == s[i]);
    }
}

proof fn lemma_lookup_update(s: Seq<(Seq<char>, Seq<char>)>, i: int, k: Seq<char>, n: Seq<char>, q: Seq<char>, j: int)
    requires
        0 <= i < s.len(),
        0 <= j <= s.len(),
        s[i].0 == k,
        lookup_mode(s.take(i), k) is None,
    ensures
        lookup_mode(s.update(i, (k, n)).take(j), q) == if j > i && q == k {
            Some(n)
        } else {
            lookup_mode(s.take(j), q)
        },
    decreases j,
{
    let u = s.update(i, (k, n));
    if j > 0 {
        lemma_lookup_update(s, i, k, n, q, j - 1);
        assert(u.take(j).drop_last() =~= u.take(j - 1));
        assert(s.take(j).drop_last() =~= s.take(j - 1));
        assert(u.take(j).last() == u[j - 1]);
        assert(s.take(j).last() == s[j - 1]);
        if j > i + 1 && q == k {
            lemma_lookup_found(s, i, k, j - 1);
        }
        if j == i + 1 && q == k {
            assert(s.take(j - 1) =~= s.take(i));
        }
    } else {
        assert(u.take(0) =~= s.take(0));
    }
}

impl PermissionModes {
    pub closed spec fn default_spec(&self) -> Seq<char> {
        self.default_mode@
    }

    pub closed spec fn entries(&self) -> Seq<(Seq<char>, Seq<char>)> {
        entries_view(self.sessions@)
    }

    /// The mode a session works in: its own, or the default when it has none (or is unnamed).
    pub open spec fn mode_of(&self, session_id: Seq<char>) -> Seq<char> {
        if session_id.len() == 0 {
            self.default_spec()
        } else {
            match lookup_mode(self.entries(), session_id) {
                Some(m) => m,
                None => self.default_spec(),
            }
        }
    }

    /// No session has a mode of its own; the default is `ask`.
    pub fn new() -> (r: Self)
        ensures
            r.default_spec() == "ask"@,
            forall|k: Seq<char>| lookup_mode(#[trigger] r.entries(), k) is None,
    {
        let r = PermissionModes { default_mode: String::from_str("ask"), sessions: Vec::new() };
        assert(r.entries() =~= Seq::<(Seq<char>, Seq<char>)>::empty());
        r
    }

    pub fn permission_mode(&self, session_id: &str) -> (r: String)
        ensures
            r@ == self.mode_of(session_id@),
    {
        if !session_id.is_empty() {
            proof {
                assert(session_id@.len() > 0);
            }
            let ghost ev = self.entries();
            let mut i: usize = 0;
            while i < self.sessions.len()
                invariant
                    i <= self.sessions@.len(),
                    ev == entries_view(self.sessions@),
                    ev == self.entries(),
                    session_id@.len() > 0,
                    lookup_mode(ev.take(i as int), session_id@) is None,
                decreases self.sessions@.len() - i,
            {
                assert(ev.take(i + 1).drop_last() =~= ev.take(i as int));
                assert(ev.take(i + 1).last() == ev[i as int]);
                if str_eq(self.sessions[i].0.as_str(), session_id) {
                    proof {
                        lemma_lookup_found(ev, i as int, session_id@, ev.len() as int);
                        assert(ev.take(ev.len() as int) =~= ev);
                    }
                    return self.sessions[i].1.clone();
                }
                i = i + 1;
            }
            proof {
                assert(ev.take(ev.len() as int) =~= ev);
            }
        } else {
            proof {
                assert(session_id@.len() == 0);
            }
        }
        self.default_mode.clone()
    }

    /// Sets the mode of a session, or the default when the session is unnamed or not yet
    /// created; returns the mode as kept.
    pub fn set_permission_mode(&mut self, session_id: &str, mode: &str, pending_new_session: bool) -> (r: String)
        ensures
            r@ == normalized_mode(mode@),
            if pending_new_session || session_id@.len() == 0 {
                &&& final(self).default_spec() == normalized_mode(mode@)
                &&& final(self).entries() == old(self).entries()
            } else {
                &&& final(self).default_spec() == old(self).default_spec()
                &&& lookup_mode(final(self).entries(), session_id@) == Some(normalized_mode(mode@))
                &&& forall|q: Seq<char>|
                    q != session_id@ ==> lookup_mode(#[trigger] final(self).entries(), q) == lookup_mode(
                        old(self).entries(),
                        q,
                    )
            },
    {
        let normalized = normalize_permission_mode(mode);
        if pending_new_session || session_id.is_empty() {
            self.default_mode = normalized.clone();
            return normalized;
        }
        let ghost ev = self.entries();
        let mut i: usize = 0;
        while i < self.sessions.len()
            invariant
                i <= self.sessions@.len(),
                ev == entries_view(self.sessions@),
                ev == old(self).entries(),
                self.default_spec() == old(self).default_spec(),
                normalized@ == normalized_mode(mode@),
                !pending_new_session,
                session_id@.len() > 0,
                lookup_mode(ev.take(i as int), session_id@) is None,
            decreases self.sessions@.len() - i,
        {
            assert(ev.take(i + 1).drop_last() =~= ev.take(i as int));
            assert(ev.take(i + 1).last() == ev[i as int]);
            if str_eq(self.sessions[i].0.as_str(), session_id) {
                let n = normalized.clone();
                self.sessions.set(i, (String::from_str(session_id), n));
                proof {
                    assert(entries_view(self.sessions@) =~= ev.update(i as int, (session_id@, normalized@)));
                    assert forall|q: Seq<char>|
                        #![trigger lookup_mode(entries_view(self.sessions@), q)]
                        true implies lookup_mode(entries_view(self.sessions@), q) == if q == session_id@ {
                            Some(normalized@)
                        } else {
                            lookup_mode(ev, q)
                        } by {
                        lemma_lookup_update(ev, i as int, session_id@, normalized@, q, ev.len() as int);
                        assert(ev.update(i as int, (session_id@, normalized@)).take(ev.len() as int) =~= ev.update(
                            i as int,
                            (session_id@, normalized@),
                        ));
                        assert(ev.take(ev.len() as int) =~= ev);
                    }
                }
                return normalized;
            }
            i = i + 1;
        }
        proof {
            assert(ev.take(ev.len() as int) =~= ev);
        }
        self.sessions.push((String::from_str(session_id), normalized.clone()));
        proof {
            let nv = entries_view(self.sessions@);
            assert(nv.drop_last() =~= ev);
            assert(nv.last() == (session_id@, normalized@));
        }
        normalized
    }
}

/// Reading a session's mode gives back the mode last set for it.
pub proof fn law_mode_read_after_write(before: PermissionModes, after: PermissionModes, session_id: Seq<char>, mode: Seq<char>)
    requires
        session_id.len() > 0,
        after.default_spec() == before.default_spec(),
        lookup_mode(after.entries(), session_id) == Some(normalized_mode(mode)),
    ensures
        after.mode_of(session_id) == normalized_mode(mode),
{
}

/// Setting the default changes the mode of every session that has none of its own.
pub proof fn law_default_applies_to_unset_sessions(after: PermissionModes, session_id: Seq<char>, mode: Seq<char>)
    requires
        after.default_spec() == normalized_mode(mode),
        lookup_mode(after.entries(), session_id) is None,
    ensures
        after.mode_of(session_id) == normalized_mode(mode),
{
}

// ── the system prompt ──

pub const READ_ONLY_DIRECTIVE: &'static str = "## Permission Mode: READ-ONLY\nYou are operating in READ-ONLY mode. You may read, analyze, summarize, and answer questions, but you MUST NOT propose any actions that would modify files, run mutating shell commands, change configuration, install software, or alter any system state. If the user asks for such an action, politely refuse and explain that read-only mode is active. Suggest they switch to \"ask\" or \"operate\" mode if mutation is required.";

pub const ASK_DIRECTIVE: &'static str = "## Permission Mode: ASK-BEFORE-ACTING\nYou are operating in ASK mode. Before suggesting any action that would modify files, run mutating shell commands, change configuration, install software, or alter system state, explicitly state what you intend to do and ask the user to confirm. Do not assume permission even if the user seemed to grant it earlier in the conversation \u{2014} re-confirm for each new mutating action.";

pub const OPERATE_DIRECTIVE: &'static str = "## Permission Mode: AUTO-OPERATE\nYou are operating in AUTO-OPERATE mode. You may proceed with reasonable actions without asking for confirmation each time, but still warn the user about destructive or irreversible operations (e.g. force-delete, force-push, dropping databases) before performing them.";

/// The directive of a permission mode: `read_only`, `ask`, and auto-operate for any other.
pub open spec fn directive_spec(mode: Seq<char>) -> Seq<char> {
    if mode == "read_only"@ {
        READ_ONLY_DIRECTIVE@
    } else if mode == "ask"@ {
        ASK_DIRECTIVE@
    } else {
        OPERATE_DIRECTIVE@
    }
}

pub fn permission_directive(mode: &str) -> (r: &'static str)
    ensures
        r@ == directive_spec(mode@),
{
    if str_eq(mode, "read_only") {
        READ_ONLY_DIRECTIVE
    } else if str_eq(mode, "ask") {
        ASK_DIRECTIVE
    } else {
        OPERATE_DIRECTIVE
    }
}

/// `"\n\n" + heading + text` when `text` is not empty.
pub open spec fn section(heading: Seq<char>, text: Seq<char>) -> Seq<char> {
    if text.len() > 0 {
        "\n\n"@ + heading + text
    } else {
        Seq::empty()
    }
}

/// The agent's system prompt: the base instruction, the permission directive, the persona
/// summary, the identity and the consciousness settings, the empty ones left out, joined by
/// blank lines.
pub open spec fn agent_system_spec(
    base: Seq<char>,
    mode: Seq<char>,
    persona: Seq<char>,
    identity: Seq<char>,
    ishiki: Seq<char>,
) -> Seq<char> {
    base + "\n\n"@ + directive_spec(mode) + section(Seq::empty(), persona) + section("## Identity\n"@, identity)
        + section("## Consciousness\n"@, ishiki)
}

fn push_section(out: &mut String, heading: &str, text: &str)
    ensures
        final(out)@ == old(out)@ + section(heading@, text@),
{
    if !text.is_empty() {
        append_str(out, "\n\n");
        append_str(out, heading);
        append_str(out, text);
        proof {
            assert(final(out)@ =~= old(out)@ + ("\n\n"@ + heading@ + text@));
        }
    } else {
        proof {
            assert(text@.len() == 0);
            assert(old(out)@ + Seq::<char>::empty() =~= old(out)@);
        }
    }
}

pub fn agent_system_prompt(base: &str, mode: &str, persona: &str, identity: &str, ishiki: &str) -> (r: String)
    ensures
        r@ == agent_system_spec(base@, mode@, persona@, identity@, ishiki@),
{
    let mut r = String::from_str(base);
    append_str(&mut r, "\n\n");
    append_str(&mut r, permission_directive(mode));
    push_section(&mut r, "", persona);
    push_section(&mut r, "## Identity\n", identity);
    push_section(&mut r, "## Consciousness\n", ishiki);
    proof {
        reveal_strlit("");
        assert(""@ =~= Seq::<char>::empty());
    }
    r
}

/// One line per tool, `- name: description`, separated by newlines.
pub open spec fn tool_lines(skills: Seq<(Seq<char>, Seq<char>)>) -> Seq<char>
    decreases skills.len(),
{
    if skills.len() == 0 {
        Seq::empty()
    } else {
        let line = "- "@ + skills.last().0 + ": "@ + skills.last().1;
        if skills.len() == 1 {
            line
        } else {
            tool_lines(skills.drop_last()) + "\n"@ + line
        }
    }
}

/// The system prompt with the tools the model may call listed under a heading (unchanged when
/// there are none).
pub open spec fn with_tools_spec(system: Seq<char>, skills: Seq<(Seq<char>, Seq<char>)>) -> Seq<char> {
    if skills.len() == 0 {
        system
    } else {
        system + "\n\n## Available Tools\n"@ + tool_lines(skills)
    }
}

pub fn with_skill_context(system: String, skills: &Vec<(String, String)>) -> (r: String)
    ensures
        r@ == with_tools_spec(system@, entries_view(skills@)),
{
    let ghost sv = entries_view(skills@);
    if skills.len() == 0 {
        return system;
    }
    let mut lines = String::new();
    let mut i: usize = 0;
    while i < skills.len()
        invariant
            i <= skills@.len(),
            sv == entries_view(skills@),
            lines@ == tool_lines(sv.take(i as int)),
        decreases skills@.len() - i,
    {
        assert(sv.take(i + 1).drop_last() =~= sv.take(i as int));
        assert(sv.take(i + 1).last() == sv[i as int]);
        if i > 0 {
            append_str(&mut lines, "\n");
        }
        append_str(&mut lines, "- ");
        append_str(&mut lines, skills[i].0.as_str());
        append_str(&mut lines, ": ");
        append_str(&mut lines, skills[i].1.as_str());
        proof {
            if i == 0 {
                assert(sv.take(0).len() == 0);
                assert(lines@ =~= "- "@ + sv[0].0 + ": "@ + sv[0].1);
            } else {
                assert(lines@ =~= tool_lines(sv.take(i as int)) + "\n"@ + ("- "@ + sv[i as int].0 + ": "@ + sv[i as int].1));
            }
        }
        i = i + 1;
    }
    assert(sv.take(skills@.len() as int) =~= sv);
    let mut r = system;
    append_str(&mut r, "\n\n## Available Tools\n");
    append_str(&mut r, lines.as_str());
    r
}

/// The user's message as sent to the model: the analysis of its pictures first, when there is
/// one, then a blank line and the prompt.
pub fn user_content(vision_text: Option<&str>, prompt: &str) -> (r: String)
    ensures
        r@ == match vision_text {
            Some(v) => v@ + "\n\n"@ + prompt@,
            None => prompt@,
        },
{
    match vision_text {
        Some(v) => {
            let mut r = String::from_str(v);
            append_str(&mut r, "\n\n");
            append_str(&mut r, prompt);
            r
        },
        None => String::from_str(prompt),
    }
}

/// What stands in for the analysis of pictures when the picture model failed.
pub fn vision_failure_note(error: &str) -> (r: String)
    ensures
        r@ == "[Image analysis unavailable: "@ + error@ + "]\n\n"@,
{
    let mut r = String::from_str("[Image analysis unavailable: ");
    append_str(&mut r, error);
    append_str(&mut r, "]\n\n");
    r
}

pub const SYSTEM_INSTRUCTION: &'static str = "You are openLoom, a coding assistant and AI agent running locally.\n\n## Environment\n- Working directory: [cwd]\n- Platform: [platform]\n\n## Workflow\n1. Read files before editing them.\n2. Make minimal, precise edits.\n3. Run tests/checks after changes to verify correctness.\n4. Search before making assumptions about code structure.\n\n## Rules\n- Answer in the same language as the user.\n- Be concise and direct.\n";

/// The base system instruction: the template with the working directory and the platform
/// filled in (in that order), and the project context under a heading when there is one.
pub open spec fn system_instruction_spec(cwd: Seq<char>, platform: Seq<char>, project_context: Seq<char>) -> Seq<char> {
    replace_from(replace_from(SYSTEM_INSTRUCTION@, "[cwd]"@, cwd, 0), "[platform]"@, platform, 0) + section(
        "## Project Context\n"@,
        project_context,
    )
}

pub fn system_instruction(cwd: &str, platform: &str, project_context: &str) -> (r: String)
    ensures
        r@ == system_instruction_spec(cwd@, platform@, project_context@),
{
    proof {
        reveal_strlit("[cwd]");
        reveal_strlit("[platform]");
    }
    let with_cwd = replace_all(SYSTEM_INSTRUCTION, "[cwd]", cwd);
    let mut r = replace_all(with_cwd.as_str(), "[platform]", platform);
    push_section(&mut r, "## Project Context\n", project_context);
    r
}

// ── the bridge ──

/// The system instruction for a conversation held through a messaging platform.
pub open spec fn bridge_system_spec(base: Seq<char>, platform: Platform, sender_name: Seq<char>) -> Seq<char> {
    base + "\n\n## Bridge Context\nYou are responding via "@ + platform_name(platform)
        + " (external messaging platform).\nThe user's name on this platform is: "@ + sender_name
        + ".\nKeep responses concise and conversational. Do not mention internal tools or file paths."@
}

pub fn bridge_system_instruction(base: &str, platform: Platform, sender_name: &str) -> (r: String)
    ensures
        r@ == bridge_system_spec(base@, platform, sender_name@),
{
    let mut r = String::from_str(base);
    append_str(&mut r, "\n\n## Bridge Context\nYou are responding via ");
    append_str(&mut r, platform.name());
    append_str(&mut r, " (external messaging platform).\nThe user's name on this platform is: ");
    append_str(&mut r, sender_name);
    append_str(&mut r, ".\nKeep responses concise and conversational. Do not mention internal tools or file paths.");
    r
}

/// The text of a bridge message as the model reads it: a text as it is, and a note standing
/// for a picture (with its caption on the next line), a file or a recording.
pub open spec fn bridge_user_text_spec(content: MessageContent) -> Seq<char> {
    match content {
        MessageContent::Text(t) => t@,
        MessageContent::Image { url, caption } => match caption {
            Some(c) => "[Image: "@ + url@ + "]\n"@ + c@,
            None => "[Image: "@ + url@ + "]"@,
        },
        MessageContent::File { url, name, .. } => "[File: "@ + name@ + " ("@ + url@ + ")]"@,
        MessageContent::Audio { url, .. } => "[Audio: "@ + url@ + "]"@,
    }
}

pub fn bridge_user_text(content: &MessageContent) -> (r: String)
    ensures
        r@ == bridge_user_text_spec(*content),
{
    match content {
        MessageContent::Text(t) => t.clone(),
        MessageContent::Image { url, caption } => {
            let mut r = String::from_str("[Image: ");
            append_str(&mut r, url.as_str());
            match caption {
                Some(c) => {
                    append_str(&mut r, "]\n");
                    append_str(&mut r, c.as_str());
                },
                None => {
                    append_str(&mut r, "]");
                },
            }
            r
        },
        MessageContent::File { url, name, .. } => {
            let mut r = String::from_str("[File: ");
            append_str(&mut r, name.as_str());
            append_str(&mut r, " (");
            append_str(&mut r, url.as_str());
            append_str(&mut r, ")]");
            r
        },
        MessageContent::Audio { url, .. } => {
            let mut r = String::from_str("[Audio: ");
            append_str(&mut r, url.as_str());
            append_str(&mut r, "]");
            r
        },
    }
}

/// What a bridge message leads to: a reply given at once, or a prompt for the model.
pub enum BridgeTurn {
    Reply(String),
    Prompt(String),
}

/// A message with no text (blank once trimmed) is answered at once; any other goes to the
/// model as the system instruction, a blank line and `User: ` with the text.
pub fn bridge_turn(system: &str, content: &MessageContent) -> (r: BridgeTurn)
    ensures
        ({
            let t = bridge_user_text_spec(*content);
            if trim_spec(t).len() == 0 {
                r matches BridgeTurn::Reply(x) && x@ == "(No text content received)"@
            } else {
                r matches BridgeTurn::Prompt(p) && p@ == system@ + "\n\nUser: "@ + t
            }
        }),
{
    let text = bridge_user_text(content);
    let trimmed = trim(text.as_str());
    if trimmed.as_str().is_empty() {
        return BridgeTurn::Reply(String::from_str("(No text content received)"));
    }
    let mut p = String::from_str(system);
    append_str(&mut p, "\n\nUser: ");
    append_str(&mut p, text.as_str());
    BridgeTurn::Prompt(p)
}

// ── which model answers ──

/// The model clients an answer can come from.
#[derive(Debug, Clone, Copy, PartialEq, Eq, Structural)]
pub enum ModelClient {
    /// A client made for the model the user picked.
    Picked,
    Cloud,
    Local,
}

/// A streamed answer comes from the picked model's client, else the cloud client, else the
/// local one.
pub fn stream_client(has_picked: bool, has_cloud: bool, has_local: bool) -> (r: Result<ModelClient, String>)
    ensures
        has_picked ==> r == Ok::<ModelClient, String>(ModelClient::Picked),
        !has_picked && has_cloud ==> r == Ok::<ModelClient, String>(ModelClient::Cloud),
        !has_picked && !has_cloud && has_local ==> r == Ok::<ModelClient, String>(ModelClient::Local),
        !has_picked && !has_cloud && !has_local ==> (r matches Err(e) && e@ == "no model client available"@),
{
    if has_picked {
        Ok(ModelClient::Picked)
    } else if has_cloud {
        Ok(ModelClient::Cloud)
    } else if has_local {
        Ok(ModelClient::Local)
    } else {
        Err(String::from_str("no model client available"))
    }
}

/// A bridge answer comes from the cloud client, else the local one.
pub fn bridge_client(has_cloud: bool, has_local: bool) -> (r: Result<ModelClient, String>)
    ensures
        has_cloud ==> r == Ok::<ModelClient, String>(ModelClient::Cloud),
        !has_cloud && has_local ==> r == Ok::<ModelClient, String>(ModelClient::Local),
        !has_cloud && !has_local ==> (r matches Err(e) && e@ == "no inference backend available for bridge message"@),
{
    if has_cloud {
        Ok(ModelClient::Cloud)
    } else if has_local {
        Ok(ModelClient::Local)
    } else {
        Err(String::from_str("no inference backend available for bridge message"))
    }
}

/// The kind of model the router picked for a message.
#[derive(Debug, Clone, Copy, PartialEq, Eq, Structural)]
pub enum TargetModel {
    /// No model (the router found a skill to run instead).
    Unset,
    Local,
    Cloud,
}

/// Where the answer to a plain chat message comes from.
pub enum ReplySource {
    Local,
    Cloud,
    /// The active model of the settings, by id and provider.
    ActiveModel { id: String, provider: String },
    /// No model at all: the fixed answer `NO_MODEL_RESPONSE`.
    NoModel,
}

pub const NO_MODEL_RESPONSE: &'static str = "\u{5f53}\u{524d}\u{6ca1}\u{6709}\u{53ef}\u{7528}\u{7684}\u{6a21}\u{578b}\u{3002}\u{8bf7}\u{5728}\u{8bbe}\u{7f6e}\u{4e2d}\u{914d}\u{7f6e}\u{81f3}\u{5c11}\u{4e00}\u{4e2a}\u{4e91}\u{7aef}\u{6216}\u{672c}\u{5730}\u{6a21}\u{578b}\u{3002}";

/// The active model of the settings when both its id and provider are given and not empty.
pub open spec fn active_model_spec(settings: Seq<char>) -> Option<(Seq<char>, Seq<char>)> {
    match (json_nested_str_field(settings, "active_model"@, "id"@), json_nested_str_field(settings, "active_model"@, "provider"@)) {
        (Some(id), Some(p)) => if id.len() > 0 && p.len() > 0 {
            Some((id, p))
        } else {
            None
        },
        _ => None,
    }
}

/// The source of an answer: the client of the kind the router picked, else the other kind,
/// else the active model of the settings, else none.
pub fn reply_source(target: TargetModel, has_local: bool, has_cloud: bool, settings: &str) -> (r: ReplySource)
    requires
        target != TargetModel::Unset,
    ensures
        target == TargetModel::Local && has_local ==> r is Local,
        target == TargetModel::Local && !has_local && has_cloud ==> r is Cloud,
        target == TargetModel::Cloud && has_cloud ==> r is Cloud,
        target == TargetModel::Cloud && !has_cloud && has_local ==> r is Local,
        !has_local && !has_cloud ==> match active_model_spec(settings@) {
            Some((id, p)) => r matches ReplySource::ActiveModel { id: i, provider: q } && i@ == id && q@ == p,
            None => r is NoModel,
        },
{
    if target == TargetModel::Local && has_local {
        return ReplySource::Local;
    }
    if has_cloud {
        return ReplySource::Cloud;
    }
    if has_local {
        return ReplySource::Local;
    }
    let id = json_get_nested_str(settings, "active_model", "id");
    let provider = json_get_nested_str(settings, "active_model", "provider");
    match (id, provider) {
        (Some(id), Some(p)) => {
            if !id.as_str().is_empty() && !p.as_str().is_empty() {
                ReplySource::ActiveModel { id, provider: p }
            } else {
                ReplySource::NoModel
            }
        },
        _ => ReplySource::NoModel,
    }
}

// ── streamed tokens ──

/// What a streamed token makes the engine announce.
pub enum StreamEvent {
    ThinkingDelta(String),
    ThinkingEnd,
    StreamDelta(String),
}

/// The reasoning carried by a token that starts with `\u{2}`: the rest, without a further
/// `REASONING\u{2}` in front.
pub open spec fn reasoning_of(token: Seq<char>) -> Seq<char> {
    let rest = token.skip(1);
    if has_prefix(rest, "REASONING\u{2}"@) {
        rest.skip(10)
    } else {
        rest
    }
}

/// Whether a token is answer text: it starts with neither `\u{0}` nor `\u{2}`.
pub open spec fn is_text_token(token: Seq<char>) -> bool {
    !has_prefix(token, seq!['\u{0}']) && !has_prefix(token, seq!['\u{2}'])
}

/// The answer so far and whether reasoning is being shown, after one more token.
pub open spec fn collect_step(state: (Seq<char>, bool), token: Seq<char>) -> (Seq<char>, bool) {
    if has_prefix(token, seq!['\u{0}']) {
        state
    } else if has_prefix(token, seq!['\u{2}']) {
        if reasoning_of(token).len() > 0 {
            (state.0, true)
        } else {
            state
        }
    } else {
        (state.0 + token, false)
    }
}

/// The state after a run of tokens, from an empty answer.
pub open spec fn collect_all(tokens: Seq<Seq<char>>) -> (Seq<char>, bool)
    decreases tokens.len(),
{
    if tokens.len() == 0 {
        (Seq::empty(), false)
    } else {
        collect_step(collect_all(tokens.drop_last()), tokens.last())
    }
}

/// The answer text of a run of tokens: its text tokens, one after the other.
pub open spec fn text_of(tokens: Seq<Seq<char>>) -> Seq<char>
    decreases tokens.len(),
{
    if tokens.len() == 0 {
        Seq::empty()
    } else if is_text_token(tokens.last()) {
        text_of(tokens.drop_last()) + tokens.last()
    } else {
        text_of(tokens.drop_last())
    }
}

/// The answer collected from a stream is exactly its text tokens: markers and reasoning never
/// reach it.
pub proof fn law_answer_is_text_tokens(tokens: Seq<Seq<char>>)
    ensures
        collect_all(tokens).0 == text_of(tokens),
    decreases tokens.len(),
{
    if tokens.len() > 0 {
        law_answer_is_text_tokens(tokens.drop_last());
    }
}

/// The answer being streamed, and whether reasoning is being shown.
pub struct StreamCollector {
    full: String,
    in_thinking: bool,
}

impl StreamCollector {
    pub closed spec fn state(&self) -> (Seq<char>, bool) {
        (self.full@, self.in_thinking)
    }

    pub fn new() -> (c: Self)
        ensures
            c.state() == (Seq::<char>::empty(), false),
    {
        StreamCollector { full: String::new(), in_thinking: false }
    }

    /// Takes one token: a `\u{0}` token is dropped; a `\u{2}` token with reasoning is announced
    /// as reasoning; any other closes the reasoning shown, if any, and is announced and kept
    /// as answer text.
    pub fn on_token(&mut self, token: &str) -> (events: Vec<StreamEvent>)
        ensures
            final(self).state() == collect_step(old(self).state(), token@),
            has_prefix(token@, seq!['\u{0}']) ==> events@.len() == 0,
            !has_prefix(token@, seq!['\u{0}']) && has_prefix(token@, seq!['\u{2}']) ==> if reasoning_of(token@).len() > 0 {
                events@.len() == 1 && (events@[0] matches StreamEvent::ThinkingDelta(d) && d@ == reasoning_of(token@))
            } else {
                events@.len() == 0
            },
            is_text_token(token@) ==> if old(self).state().1 {
                &&& events@.len() == 2
                &&& events@[0] is ThinkingEnd
                &&& events@[1] matches StreamEvent::StreamDelta(d) && d@ == token@
            } else {
                events@.len() == 1 && (events@[0] matches StreamEvent::StreamDelta(d) && d@ == token@)
            },
    {
        let v = chars_of(token);
        let mut events: Vec<StreamEvent> = Vec::new();
        if v.len() > 0 && v[0] == '\u{0}' {
            assert(has_prefix(token@, seq!['\u{0}'])) by {
                assert(token@.subrange(0, 1) =~= seq!['\u{0}']);
            }
            return events;
        }
        assert(!has_prefix(token@, seq!['\u{0}'])) by {
            if has_prefix(token@, seq!['\u{0}']) {
                assert(token@.subrange(0, 1)[0] == '\u{0}');
            }
        }
        if v.len() > 0 && v[0] == '\u{2}' {
            assert(has_prefix(token@, seq!['\u{2}'])) by {
                assert(token@.subrange(0, 1) =~= seq!['\u{2}']);
            }
            let rest: Vec<char> = crate::text::slice_chars(&v, 1, v.len());
            assert(rest@ =~= token@.skip(1));
            let reasoning: Vec<char> = if starts_with(&rest, "REASONING\u{2}") {
                proof {
                    reveal_strlit("REASONING\u{2}");
                }
                let r = crate::text::slice_chars(&rest, 10, rest.len());
                assert(r@ =~= rest@.skip(10));
                r
            } else {
                rest
            };
            if reasoning.len() > 0 {
                self.in_thinking = true;
                events.push(StreamEvent::ThinkingDelta(string_of(&reasoning)));
            }
            return events;
        }
        assert(!has_prefix(token@, seq!['\u{2}'])) by {
            if has_prefix(token@, seq!['\u{2}']) {
                assert(token@.subrange(0, 1)[0] == '\u{2}');
            }
        }
        if self.in_thinking {
            self.in_thinking = false;
            events.push(StreamEvent::ThinkingEnd);
        }
        append_str(&mut self.full, token);
        events.push(StreamEvent::StreamDelta(String::from_str(token)));
        events
    }

    /// At the end of the stream: the close of the reasoning still shown, if any.
    pub fn finish(&self) -> (r: Option<StreamEvent>)
        ensures
            self.state().1 ==> r matches Some(StreamEvent::ThinkingEnd),
            !self.state().1 ==> r is None,
    {
        if self.in_thinking {
            Some(StreamEvent::ThinkingEnd)
        } else {
            None
        }
    }

    /// The answer collected so far.
    pub fn full_response(&self) -> (r: String)
        ensures
            r@ == self.state().0,
    {
        self.full.clone()
    }
}

// ── model backends and context sizes ──

/// The kinds of model backend.
#[derive(Debug, Clone, Copy, PartialEq, Eq, Structural)]
pub enum Backend {
    Anthropic,
    OpenAI,
    DeepSeek,
    LmStudio,
    Ollama,
}

/// The backend a provider name (lowercased) stands for; an unknown one is taken as
/// OpenAI-compatible.
pub open spec fn backend_named(lower: Seq<char>) -> Backend {
    if lower == "anthropic"@ {
        Backend::Anthropic
    } else if lower == "openai"@ {
        Backend::OpenAI
    } else if lower == "deepseek"@ {
        Backend::DeepSeek
    } else if lower == "lmstudio"@ || lower == "lm-studio"@ {
        Backend::LmStudio
    } else if lower == "ollama"@ {
        Backend::Ollama
    } else {
        Backend::OpenAI
    }
}

pub fn backend_for_provider(provider: &str) -> (b: Backend)
    ensures
        b == backend_named(lowercase(provider@)),
{
    let lower = to_lowercase(provider);
    let l = lower.as_str();
    if str_eq(l, "anthropic") {
        Backend::Anthropic
    } else if str_eq(l, "openai") {
        Backend::OpenAI
    } else if str_eq(l, "deepseek") {
        Backend::DeepSeek
    } else if str_eq(l, "lmstudio") || str_eq(l, "lm-studio") {
        Backend::LmStudio
    } else if str_eq(l, "ollama") {
        Backend::Ollama
    } else {
        Backend::OpenAI
    }
}

/// The context size assumed for a backend when nothing else tells it.
pub open spec fn default_context(b: Backend) -> usize {
    match b {
        Backend::Anthropic => 200_000,
        Backend::OpenAI => 128_000,
        Backend::DeepSeek => 64_000,
        Backend::LmStudio => 32_000,
        Backend::Ollama => 32_000,
    }
}

/// What the context size of a configured model is read from.
#[derive(Debug, Clone, Copy)]
pub struct ConfiguredModel {
    pub backend: Backend,
    pub context_size: usize,
    /// The size the model's name gives between square brackets, when it has a name and one.
    pub name_hint: Option<usize>,
    pub cloud_capable: bool,
    pub local_inference: bool,
}

/// The first model that is cloud-capable, from position `k` on.
pub open spec fn first_cloud_from(m: Seq<ConfiguredModel>, k: int) -> Option<int>
    decreases m.len() - k,
{
    if k < 0 || k >= m.len() {
        None
    } else if m[k].cloud_capable {
        Some(k)
    } else {
        first_cloud_from(m, k + 1)
    }
}

/// The first model that runs locally, from position `k` on.
pub open spec fn first_local_from(m: Seq<ConfiguredModel>, k: int) -> Option<int>
    decreases m.len() - k,
{
    if k < 0 || k >= m.len() {
        None
    } else if m[k].local_inference {
        Some(k)
    } else {
        first_local_from(m, k + 1)
    }
}

/// The context size of the model in use: that of the first cloud-capable model (its
/// configured size above 4096, else the size its name gives, else its backend's default);
/// without one, that of a live cloud client (128000) or local client (32000); else that of the
/// first local model, or 4096.
pub open spec fn context_size_spec(m: Seq<ConfiguredModel>, has_cloud: bool, has_local: bool) -> usize {
    match first_cloud_from(m, 0) {
        Some(c) => if m[c].context_size > 4096 {
            m[c].context_size
        } else {
            match m[c].name_hint {
                Some(n) => n,
                None => default_context(m[c].backend),
            }
        },
        None => if has_cloud {
            128_000
        } else if has_local {
            32_000
        } else {
            match first_local_from(m, 0) {
                Some(l) => m[l].context_size,
                None => 4096,
            }
        },
    }
}

fn default_context_of(b: Backend) -> (r: usize)
    ensures
        r == default_context(b),
{
    match b {
        Backend::Anthropic => 200_000,
        Backend::OpenAI => 128_000,
        Backend::DeepSeek => 64_000,
        Backend::LmStudio => 32_000,
        Backend::Ollama => 32_000,
    }
}

pub fn model_context_size(models: &Vec<ConfiguredModel>, has_cloud: bool, has_local: bool) -> (r: usize)
    ensures
        r == context_size_spec(models@, has_cloud, has_local),
{
    let mut i: usize = 0;
    while i < models.len()
        invariant
            i <= models@.len(),
            first_cloud_from(models@, 0) == first_cloud_from(models@, i as int),
        decreases models@.len() - i,
    {
        if models[i].cloud_capable {
            let c = models[i];
            if c.context_size > 4096 {
                return c.context_size;
            }
            return match c.name_hint {
                Some(n) => n,
                None => default_context_of(c.backend),
            };
        }
        i = i + 1;
    }
    if has_cloud {
        return 128_000;
    }
    if has_local {
        return 32_000;
    }
    let mut j: usize = 0;
    while j < models.len()
        invariant
            j <= models@.len(),
            first_local_from(models@, 0) == first_local_from(models@, j as int),
            first_cloud_from(models@, 0) is None,
            !has_cloud && !has_local,
        decreases models@.len() - j,
    {
        if models[j].local_inference {
            return models[j].context_size;
        }
        j = j + 1;
    }
    4096
}

/// The model in use as shown to the user: `model (provider)` of the cloud client, else of the
/// local one.
pub fn model_display_name(cloud: Option<(&str, &str)>, local: Option<(&str, &str)>) -> (r: String)
    ensures
        r@ == match (cloud, local) {
            (Some((m, p)), _) => m@ + " ("@ + p@ + ")"@,
            (None, Some((m, p))) => m@ + " ("@ + p@ + ")"@,
            (None, None) => "no model configured"@,
        },
{
    let pick = match cloud {
        Some(c) => Some(c),
        None => local,
    };
    match pick {
        Some((m, p)) => {
            let mut r = String::from_str(m);
            append_str(&mut r, " (");
            append_str(&mut r, p);
            append_str(&mut r, ")");
            r
        },
        None => String::from_str("no model configured"),
    }
}

/// The id of the model in use: the cloud client's, else the local one's, else empty.
pub fn current_model_id(cloud: Option<&str>, local: Option<&str>) -> (r: String)
    ensures
        r@ == match (cloud, local) {
            (Some(m), _) => m@,
            (None, Some(m)) => m@,
            (None, None) => Seq::empty(),
        },
{
    match cloud {
        Some(m) => String::from_str(m),
        None => match local {
            Some(m) => String::from_str(m),
            None => String::new(),
        },
    }
}

/// Whether a skill comes from outside (its name holds a `:`).
pub open spec fn is_external_name(e: (Seq<char>, Seq<char>)) -> bool {
    e.0.contains(':')
}

/// The skills from outside, by name and description, in order.
pub fn external_skill_names(skills: &Vec<(String, String)>) -> (r: Vec<(String, String)>)
    ensures
        entries_view(r@) == entries_view(skills@).filter(|e: (Seq<char>, Seq<char>)| is_external_name(e)),
{
    let ghost sv = entries_view(skills@);
    let ghost f = |e: (Seq<char>, Seq<char>)| is_external_name(e);
    let mut r: Vec<(String, String)> = Vec::new();
    let mut i: usize = 0;
    while i < skills.len()
        invariant
            i <= skills@.len(),
            sv == entries_view(skills@),
            f == (|e: (Seq<char>, Seq<char>)| is_external_name(e)),
            entries_view(r@) == sv.take(i as int).filter(f),
        decreases skills@.len() - i,
    {
        proof {
            lemma_filter_step(sv, i as int, f);
        }
        let name = chars_of(skills[i].0.as_str());
        let mut has_colon = false;
        let mut j: usize = 0;
        while j < name.len()
            invariant
                j <= name@.len(),
                has_colon == exists|t: int| 0 <= t < j && #[trigger] name@[t] == ':',
            decreases name@.len() - j,
        {
            if name[j] == ':' {
                has_colon = true;
            }
            j = j + 1;
        }
        assert(has_colon == name@.contains(':'));
        if has_colon {
            let ghost before = r@;
            r.push((skills[i].0.clone(), skills[i].1.clone()));
            assert(entries_view(r@) =~= entries_view(before).push(sv[i as int]));
        }
        i = i + 1;
    }
    assert(sv.take(skills@.len() as int) =~= sv);
    r
}

} // verus!
