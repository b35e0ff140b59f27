//! The simple full-screen chat: its slash commands, its help, its command suggestions, its
//! input history and its word wrapping by bytes.

use vstd::prelude::*;

use crate::markdown::split_char_spec;
use crate::render_text::byte_len;
use crate::text::{
    append_str, chars_of, find_char, has_prefix, lead_ws_count, lemma_find_from_bounds, lemma_lead_ws_bound,
    parse_usize, parse_usize_spec, push_char, slice_chars, starts_with, str_eq, string_of, text_starts_with, trim,
    trim_spec, trim_start_spec,
};

verus! {

/// The commands of the simple chat with their descriptions, in the order the help lists them.
pub open spec fn chat_commands_spec() -> Seq<(Seq<char>, Seq<char>)> {
    seq![
        ("/exit"@, "Quit openLoom"@),
        ("/help"@, "Show help"@),
        ("/clear"@, "Clear conversation"@),
        ("/session"@, "List sessions"@),
        ("/session new"@, "Create new session"@),
        ("/session switch"@, "Switch to a session"@),
        ("/memory persona"@, "Show persona summary"@),
        ("/memory events"@, "Show recent events"@),
        ("/memory cognitions"@, "Show cognitions for USER"@),
        ("/model"@, "Show model info"@),
        ("/skills"@, "List available skills"@),
        ("/agent"@, "Show agent state"@),
        ("/doctor"@, "System diagnostic"@),
        ("/cache"@, "KV cache statistics"@),
        ("/config"@, "Show all config"@),
        ("/config <key>"@, "Show a config value"@),
        ("/version"@, "Version info"@),
    ]
}

pub open spec fn pair_views(v: Seq<(&str, &str)>) -> Seq<(Seq<char>, Seq<char>)> {
    Seq::new(v.len(), |i: int| (v[i].0@, v[i].1@))
}

pub fn chat_commands() -> (r: Vec<(&'static str, &'static str)>)
    ensures
        pair_views(r@) == chat_commands_spec(),
{
    let mut r: Vec<(&'static str, &'static str)> = Vec::new();
    r.push(("/exit", "Quit openLoom"));
    r.push(("/help", "Show help"));
    r.push(("/clear", "Clear conversation"));
    r.push(("/session", "List sessions"));
    r.push(("/session new", "Create new session"));
    r.push(("/session switch", "Switch to a session"));
    r.push(("/memory persona", "Show persona summary"));
    r.push(("/memory events", "Show recent events"));
    r.push(("/memory cognitions", "Show cognitions for USER"));
    r.push(("/model", "Show model info"));
    r.push(("/skills", "List available skills"));
    r.push(("/agent", "Show agent state"));
    r.push(("/doctor", "System diagnostic"));
    r.push(("/cache", "KV cache statistics"));
    r.push(("/config", "Show all config"));
    r.push(("/config <key>", "Show a config value"));
    r.push(("/version", "Version info"));
    assert(pair_views(r@) =~= chat_commands_spec());
    r
}

/// The commands of entries `from` up to `to` as help lines: two spaces, the command, a dash,
/// the description.
pub open spec fn help_lines(cmds: Seq<(Seq<char>, Seq<char>)>, from: int, to: int) -> Seq<char>
    decreases to - from,
{
    if from >= to || from < 0 || to > cmds.len() {
        Seq::empty()
    } else {
        help_lines(cmds, from, to - 1) + "  "@ + cmds[to - 1].0 + " \u{2014} "@ + cmds[to - 1].1 + "\n"@
    }
}

/// The help of the simple chat: its commands under the headings Chat, Session, Memory and
/// System.
pub open spec fn chat_help_spec() -> Seq<char> {
    let c = chat_commands_spec();
    "Chat:\n"@ + help_lines(c, 0, 3) + "\nSession:\n"@ + help_lines(c, 3, 6) + "\nMemory:\n"@ + help_lines(c, 6, 9)
        + "\nSystem:\n"@ + help_lines(c, 9, c.len() as int)
}

fn append_help_lines(out: &mut String, cmds: &Vec<(&'static str, &'static str)>, from: usize, to: usize)
    requires
        from <= to <= cmds@.len(),
    ensures
        final(out)@ == old(out)@ + help_lines(pair_views(cmds@), from as int, to as int),
{
    let ghost start = out@;
    let mut i = from;
    while i < to
        invariant
            from <= i <= to <= cmds@.len(),
            out@ == start + help_lines(pair_views(cmds@), from as int, i as int),
        decreases to - i,
    {
        append_str(out, "  ");
        append_str(out, cmds[i].0);
        append_str(out, " \u{2014} ");
        append_str(out, cmds[i].1);
        append_str(out, "\n");
        i = i + 1;
        assert(out@ =~= start + help_lines(pair_views(cmds@), from as int, i as int));
    }
}

pub fn chat_help_text() -> (r: String)
    ensures
        r@ == chat_help_spec(),
{
    let cmds = chat_commands();
    let mut out = String::from_str("Chat:\n");
    append_help_lines(&mut out, &cmds, 0, 3);
    append_str(&mut out, "\nSession:\n");
    append_help_lines(&mut out, &cmds, 3, 6);
    append_str(&mut out, "\nMemory:\n");
    append_help_lines(&mut out, &cmds, 6, 9);
    append_str(&mut out, "\nSystem:\n");
    append_help_lines(&mut out, &cmds, 9, cmds.len());
    out
}

pub open spec fn suggest_upto(p: Seq<char>, k: int) -> Seq<(Seq<char>, Seq<char>)>
    decreases k,
{
    if k <= 0 || k > chat_commands_spec().len() {
        Seq::empty()
    } else if has_prefix(chat_commands_spec()[k - 1].0, p) {
        suggest_upto(p, k - 1).push(chat_commands_spec()[k - 1])
    } else {
        suggest_upto(p, k - 1)
    }
}

/// The suggestions for the input line, in the order of the command list.
pub open spec fn filter_commands_spec(line: Seq<char>) -> Seq<(Seq<char>, Seq<char>)> {
    let p = trim_start_spec(line);
    if !has_prefix(p, "/"@) {
        Seq::empty()
    } else {
        suggest_upto(p, chat_commands_spec().len() as int)
    }
}

pub fn filter_commands(line: &str) -> (r: Vec<(&'static str, &'static str)>)
    ensures
        pair_views(r@) == filter_commands_spec(line@),
{
    let v = chars_of(line);
    let k = lead_ws_count(&v);
    proof { lemma_lead_ws_bound(v@); }
    let p = slice_chars(&v, k, v.len());
    assert(p@ =~= trim_start_spec(v@));
    let mut r: Vec<(&'static str, &'static str)> = Vec::new();
    if !starts_with(&p, "/") {
        assert(pair_views(r@) =~= Seq::<(Seq<char>, Seq<char>)>::empty());
        return r;
    }
    let cmds = chat_commands();
    let mut i: usize = 0;
    while i < cmds.len()
        invariant
            i <= cmds@.len(),
            pair_views(cmds@) == chat_commands_spec(),
            pair_views(r@) == suggest_upto(p@, i as int),
        decreases cmds@.len() - i,
    {
        let c = chars_of(cmds[i].0);
        assert(pair_views(cmds@)[i as int] == chat_commands_spec()[i as int]);
        if crate::text::matches_at(&c, &p, 0) {
            let ghost before = pair_views(r@);
            r.push(cmds[i]);
            assert(pair_views(r@) =~= before.push(chat_commands_spec()[i as int]));
        }
        i = i + 1;
    }
    r
}

/// What a command line of the simple chat asks for.
pub enum ChatCommand {
    /// The line does not start with `/`, or names no command: it is sent as a message.
    NotCommand,
    Exit,
    Help,
    Clear,
    Model,
    ListSessions,
    NewSession,
    Doctor,
    MemoryPersona,
    MemoryCognitions,
    Skills,
    Agent,
    Cache,
    Version,
    /// `/session switch` without an id: show its usage.
    SwitchUsage,
    /// `/session switch <id>`.
    SwitchSession(String),
    /// `/memory events [n]`: the newest `n` events (ten when `n` is missing or not a number).
    MemoryEvents(usize),
    /// `/config <key>` (a value), or the whole configuration when the key is empty.
    Config(Option<String>),
}

/// The command a line asks for (see `ChatCommand`), after trimming the line.
pub open spec fn chat_command_spec(c: ChatCommand, line: Seq<char>) -> bool {
    let t = trim_spec(line);
    if !has_prefix(t, "/"@) {
        c is NotCommand
    } else if t == "/exit"@ {
        c is Exit
    } else if t == "/help"@ {
        c is Help
    } else if t == "/clear"@ {
        c is Clear
    } else if t == "/model"@ {
        c is Model
    } else if t == "/session"@ {
        c is ListSessions
    } else if t == "/session new"@ {
        c is NewSession
    } else if t == "/doctor"@ {
        c is Doctor
    } else if t == "/memory persona"@ {
        c is MemoryPersona
    } else if t == "/memory cognitions"@ {
        c is MemoryCognitions
    } else if t == "/skills"@ {
        c is Skills
    } else if t == "/agent"@ {
        c is Agent
    } else if t == "/cache"@ {
        c is Cache
    } else if t == "/version"@ {
        c is Version
    } else if has_prefix(t, "/session switch "@) {
        let id = trim_spec(t.skip(16));
        if id.len() == 0 {
            c is SwitchUsage
        } else {
            c matches ChatCommand::SwitchSession(s) && s@ == id
        }
    } else if has_prefix(t, "/memory events"@) {
        c == ChatCommand::MemoryEvents(
            match parse_usize_spec(trim_spec(t.skip(14))) {
                Some(n) => if n <= usize::MAX { n as usize } else { 10 },
                None => 10,
            },
        )
    } else if has_prefix(t, "/config "@) {
        let key = trim_spec(t.skip(8));
        if key.len() == 0 {
            c matches ChatCommand::Config(k) && k is None
        } else {
            c matches ChatCommand::Config(k) && k matches Some(s) && s@ == key
        }
    } else if t == "/config"@ {
        c matches ChatCommand::Config(k) && k is None
    } else {
        c is NotCommand
    }
}

pub fn parse_chat_command(line: &str) -> (c: ChatCommand)
    ensures
        chat_command_spec(c, line@),
{
    let t = trim(line);
    let ts = t.as_str();
    if !text_starts_with(ts, "/") {
        return ChatCommand::NotCommand;
    }
    if str_eq(ts, "/exit") {
        return ChatCommand::Exit;
    }
    if str_eq(ts, "/help") {
        return ChatCommand::Help;
    }
    if str_eq(ts, "/clear") {
        return ChatCommand::Clear;
    }
    if str_eq(ts, "/model") {
        return ChatCommand::Model;
    }
    if str_eq(ts, "/session") {
        return ChatCommand::ListSessions;
    }
    if str_eq(ts, "/session new") {
        return ChatCommand::NewSession;
    }
    if str_eq(ts, "/doctor") {
        return ChatCommand::Doctor;
    }
    if str_eq(ts, "/memory persona") {
        return ChatCommand::MemoryPersona;
    }
    if str_eq(ts, "/memory cognitions") {
        return ChatCommand::MemoryCognitions;
    }
    if str_eq(ts, "/skills") {
        return ChatCommand::Skills;
    }
    if str_eq(ts, "/agent") {
        return ChatCommand::Agent;
    }
    if str_eq(ts, "/cache") {
        return ChatCommand::Cache;
    }
    if str_eq(ts, "/version") {
        return ChatCommand::Version;
    }
    let v = chars_of(ts);
    proof {
        reveal_strlit("/session switch ");
        reveal_strlit("/memory events");
        reveal_strlit("/config ");
    }
    if starts_with(&v, "/session switch ") {
        let rest = string_of(&slice_chars(&v, 16, v.len()));
        assert(rest@ =~= t@.skip(16));
        let id = trim(rest.as_str());
        if id.as_str().is_empty() {
            return ChatCommand::SwitchUsage;
        }
        return ChatCommand::SwitchSession(id);
    }
    if starts_with(&v, "/memory events") {
        let rest = string_of(&slice_chars(&v, 14, v.len()));
        assert(rest@ =~= t@.skip(14));
        let arg = trim(rest.as_str());
        let n = match parse_usize(arg.as_str()) {
            Some(n) => n,
            None => 10,
        };
        return ChatCommand::MemoryEvents(n);
    }
    if starts_with(&v, "/config ") {
        let rest = string_of(&slice_chars(&v, 8, v.len()));
        assert(rest@ =~= t@.skip(8));
        let key = trim(rest.as_str());
        if key.as_str().is_empty() {
            return ChatCommand::Config(None);
        }
        return ChatCommand::Config(Some(key));
    }
    if str_eq(ts, "/config") {
        return ChatCommand::Config(None);
    }
    ChatCommand::NotCommand
}

/// The history entry recalled by moving `delta` from `idx` in a history of `len` entries: the
/// first move up recalls the newest entry, the first move down and moves past either end
/// change nothing.
pub open spec fn chat_history_spec(len: int, idx: Option<usize>, delta: int) -> Option<int> {
    if len == 0 {
        None
    } else {
        match idx {
            None => if delta < 0 {
                Some(len - 1)
            } else {
                None
            },
            Some(i) => {
                let next = i + delta;
                if next < 0 || next >= len {
                    None
                } else {
                    Some(next)
                }
            },
        }
    }
}

/// The history position after moving `delta` entries, or none when nothing changes.
pub fn chat_history_step(len: usize, idx: Option<usize>, delta: isize) -> (r: Option<usize>)
    requires
        idx matches Some(i) ==> i <= isize::MAX,
        idx matches Some(i) ==> isize::MIN <= i + delta <= isize::MAX,
    ensures
        match chat_history_spec(len as int, idx, delta as int) {
            Some(n) => r == Some(n as usize),
            None => r is None,
        },
{
    if len == 0 {
        return None;
    }
    match idx {
        None => {
            if delta < 0 {
                Some(len - 1)
            } else {
                None
            }
        },
        Some(i) => {
            let next: isize = i as isize + delta;
            if next < 0 || next as usize >= len {
                None
            } else {
                Some(next as usize)
            }
        },
    }
}

/// The rows of the suggestion popup shown when `total` suggestions exist: `visible` rows at
/// most, keeping the highlighted one near the middle.
pub open spec fn suggestion_window_spec(total: int, selected: int, visible: int) -> (int, int) {
    let start = if total <= visible {
        0
    } else {
        let half = visible / 2;
        let s = if selected >= half { selected - half } else { 0 };
        if s < total - visible { s } else { total - visible }
    };
    (start, if start + visible < total { start + visible } else { total })
}

pub fn suggestion_window(total: usize, selected: usize, visible: usize) -> (r: (usize, usize))
    requires
        total + visible <= usize::MAX,
    ensures
        (r.0 as int, r.1 as int) == suggestion_window_spec(total as int, selected as int, visible as int),
{
    let start = if total <= visible {
        0
    } else {
        let half = visible / 2;
        let s = if selected >= half {
            selected - half
        } else {
            0
        };
        if s < total - visible {
            s
        } else {
            total - visible
        }
    };
    let end = if start + visible < total {
        start + visible
    } else {
        total
    };
    (start, end)
}

} // verus!
