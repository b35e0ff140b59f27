//! Slash commands typed into the chat input: parsing, and what each command asks for.

use vstd::prelude::*;

use crate::app_state::Message;
use crate::text::{append_str, chars_eq_str, chars_of, parse_usize, parse_usize_spec, has_prefix, lowercase, slice_chars, split_once, split_once_spec, starts_with, str_eq, string_of, to_lowercase, trim_chars, trim_spec};

verus! {

#[derive(Debug, Clone)]
pub enum SlashCommand {
    Help,
    Model,
    Cost,
    Clear,
    Theme(String),
    Session(String),
    Memory(String),
    Skills(String),
    Config(String),
}

/// Which command a name selects.
#[derive(PartialEq, Eq, Structural)]
pub ghost enum CommandKind {
    Help,
    Model,
    Cost,
    Clear,
    Theme,
    Session,
    Memory,
    Skills,
    Config,
}

/// The command selected by a lowercase name, if any.
pub open spec fn command_kind(name: Seq<char>) -> Option<CommandKind> {
    if name == "help"@ || name == "h"@ {
        Some(CommandKind::Help)
    } else if name == "model"@ || name == "m"@ {
        Some(CommandKind::Model)
    } else if name == "cost"@ {
        Some(CommandKind::Cost)
    } else if name == "clear"@ || name == "cls"@ {
        Some(CommandKind::Clear)
    } else if name == "theme"@ {
        Some(CommandKind::Theme)
    } else if name == "session"@ {
        Some(CommandKind::Session)
    } else if name == "memory"@ {
        Some(CommandKind::Memory)
    } else if name == "skills"@ || name == "skill"@ {
        Some(CommandKind::Skills)
    } else if name == "config"@ {
        Some(CommandKind::Config)
    } else {
        None
    }
}

pub open spec fn takes_args(k: CommandKind) -> bool {
    !(k == CommandKind::Help || k == CommandKind::Model || k == CommandKind::Cost || k == CommandKind::Clear)
}

/// A command as its kind and its argument text (empty for commands without arguments).
pub open spec fn command_view(c: SlashCommand) -> (CommandKind, Seq<char>) {
    match c {
        SlashCommand::Help => (CommandKind::Help, Seq::empty()),
        SlashCommand::Model => (CommandKind::Model, Seq::empty()),
        SlashCommand::Cost => (CommandKind::Cost, Seq::empty()),
        SlashCommand::Clear => (CommandKind::Clear, Seq::empty()),
        SlashCommand::Theme(a) => (CommandKind::Theme, a@),
        SlashCommand::Session(a) => (CommandKind::Session, a@),
        SlashCommand::Memory(a) => (CommandKind::Memory, a@),
        SlashCommand::Skills(a) => (CommandKind::Skills, a@),
        SlashCommand::Config(a) => (CommandKind::Config, a@),
    }
}

/// What typing `input` means: after trimming, text that starts with one `/` (not `//`) names a
/// command by the word before the first space, in any letter case; the rest after that space
/// is the command's argument text.
pub open spec fn parse_spec(input: Seq<char>) -> Option<(CommandKind, Seq<char>)> {
    let t = trim_spec(input);
    if !has_prefix(t, "/"@) || has_prefix(t, "//"@) {
        None
    } else {
        let parts = split_once_spec(t.skip(1), ' ');
        match command_kind(lowercase(parts.0)) {
            Some(k) => Some(
                (
                    k,
                    if takes_args(k) {
                        match parts.1 {
                            Some(a) => a,
                            None => Seq::empty(),
                        }
                    } else {
                        Seq::empty()
                    },
                ),
            ),
            None => None,
        }
    }
}

/// The command named by a lowercase name, with the given arguments.
pub fn command_from_name(name: &str, args: String) -> (r: Option<SlashCommand>)
    ensures
        match r {
            Some(c) => command_kind(name@) matches Some(k) && command_view(c) == (k, if takes_args(k) { args@ } else { Seq::empty() }),
            None => command_kind(name@) is None,
        },
{
    if str_eq(name, "help") || str_eq(name, "h") {
        Some(SlashCommand::Help)
    } else if str_eq(name, "model") || str_eq(name, "m") {
        Some(SlashCommand::Model)
    } else if str_eq(name, "cost") {
        Some(SlashCommand::Cost)
    } else if str_eq(name, "clear") || str_eq(name, "cls") {
        Some(SlashCommand::Clear)
    } else if str_eq(name, "theme") {
        Some(SlashCommand::Theme(args))
    } else if str_eq(name, "session") {
        Some(SlashCommand::Session(args))
    } else if str_eq(name, "memory") {
        Some(SlashCommand::Memory(args))
    } else if str_eq(name, "skills") || str_eq(name, "skill") {
        Some(SlashCommand::Skills(args))
    } else if str_eq(name, "config") {
        Some(SlashCommand::Config(args))
    } else {
        None
    }
}

pub fn parse_slash_command(input: &str) -> (r: Option<SlashCommand>)
    ensures
        match r {
            Some(c) => parse_spec(input@) == Some(command_view(c)),
            None => parse_spec(input@) is None,
        },
{
    let v = chars_of(input);
    let t = trim_chars(&v);
    if !starts_with(&t, "/") || starts_with(&t, "//") {
        return None;
    }
    proof {
        reveal_strlit("/");
    }
    let body = slice_chars(&t, 1, t.len());
    assert(body@ =~= t@.skip(1));
    let (cmd, rest) = split_once(&body, ' ');
    let cmd_text = string_of(&cmd);
    let lower = to_lowercase(cmd_text.as_str());
    let args = match rest {
        Some(a) => string_of(&a),
        None => String::new(),
    };
    command_from_name(lower.as_str(), args)
}


/// The help listing of the slash commands.
pub const HELP_TEXT: &'static str = "Slash Commands:\n  /help           Show this help\n  /model          Show current model\n  /cost           Show token usage and cost\n  /clear          Clear screen\n  /theme dark|light  Switch theme\n  /session new|list  Session management\n  /memory persona|events|search  Memory queries\n  /skills list    List registered skills\n  /config get|set Config management\n  //message       Send literal /message (not a command)";

pub fn help_text() -> (r: String)
    ensures
        r@ == HELP_TEXT@,
{
    String::from_str(HELP_TEXT)
}

/// The colour theme a command switches to.
#[derive(Debug, Clone, Copy, PartialEq, Eq)]
pub enum ThemeChoice {
    Dark,
    Light,
}

/// What carrying out a slash command takes: a reply that is ready now, or the engine
/// request (or screen change) that produces it.
#[derive(Debug, Clone)]
pub enum CommandPlan {
    /// Reply with this text.
    Reply(String),
    /// Report token usage and cost.
    ShowCost,
    /// Clear the messages and reply "Screen cleared.".
    ClearScreen,
    /// Switch the colour theme and say so.
    SwitchTheme(ThemeChoice),
    CreateSession,
    ListSessions,
    PersonaSummary,
    /// List the most recent events, at most this many.
    ListEvents(usize),
    /// List what is known of this subject.
    ListCognitions(String),
    /// Search the events for this query.
    SearchEvents(String),
    ListSkills,
    /// Show the configuration, or the value of one key.
    GetConfig(Option<String>),
    /// Set a configuration key to a value.
    SetConfig(String, String),
}

pub const SESSION_USAGE: &'static str = "Usage: /session [new|list]";
pub const MEMORY_USAGE: &'static str = "Usage: /memory [persona|events [N]|cognitions [subject]|search <query>]";
pub const SEARCH_USAGE: &'static str = "Usage: /memory search <query>";
pub const SKILLS_USAGE: &'static str = "Usage: /skills [list]";
pub const CONFIG_USAGE: &'static str = "Usage: /config [get [key]|set <key> <value>]";
pub const CONFIG_SET_USAGE: &'static str = "Usage: /config set <key> <value>";
pub const DEFAULT_EVENT_LIMIT: usize = 20;

/// The first word of `a` (before the first space) and the rest after it (empty if none).
pub open spec fn first_word(a: Seq<char>) -> Seq<char> {
    split_once_spec(a, ' ').0
}

pub open spec fn after_first_word(a: Seq<char>) -> Option<Seq<char>> {
    split_once_spec(a, ' ').1
}

pub open spec fn or_empty(o: Option<Seq<char>>) -> Seq<char> {
    match o {
        Some(s) => s,
        None => Seq::empty(),
    }
}

/// What a command of kind `k` with arguments `args` asks for, when the current model is `model`.
pub open spec fn plan_spec(p: CommandPlan, k: CommandKind, args: Seq<char>, model: Seq<char>) -> bool {
    match k {
        CommandKind::Help => p matches CommandPlan::Reply(t) && t@ == HELP_TEXT@,
        CommandKind::Model => p matches CommandPlan::Reply(t) && t@ == "Current model: "@ + model,
        CommandKind::Cost => p is ShowCost,
        CommandKind::Clear => p is ClearScreen,
        CommandKind::Theme => if args == "light"@ {
            p == CommandPlan::SwitchTheme(ThemeChoice::Light)
        } else if args == "dark"@ || args.len() == 0 {
            p == CommandPlan::SwitchTheme(ThemeChoice::Dark)
        } else {
            p matches CommandPlan::Reply(t) && t@ == "Unknown theme: "@ + args + ". Use /theme dark or /theme light."@
        },
        CommandKind::Session => if args == "new"@ {
            p is CreateSession
        } else if args == "list"@ {
            p is ListSessions
        } else {
            p matches CommandPlan::Reply(t) && t@ == SESSION_USAGE@
        },
        CommandKind::Memory => {
            let sub = first_word(args);
            let rest = or_empty(after_first_word(args));
            if sub == "persona"@ {
                p is PersonaSummary
            } else if sub == "events"@ {
                p matches CommandPlan::ListEvents(n) && n == match parse_usize_spec(rest) {
                    Some(v) => v,
                    None => DEFAULT_EVENT_LIMIT as nat,
                }
            } else if sub == "cognitions"@ {
                p matches CommandPlan::ListCognitions(s) && s@ == if rest.len() == 0 { "USER"@ } else { rest }
            } else if sub == "search"@ {
                if rest.len() == 0 {
                    p matches CommandPlan::Reply(t) && t@ == SEARCH_USAGE@
                } else {
                    p matches CommandPlan::SearchEvents(q) && q@ == rest
                }
            } else {
                p matches CommandPlan::Reply(t) && t@ == MEMORY_USAGE@
            }
        },
        CommandKind::Skills => if args == "list"@ || args.len() == 0 {
            p is ListSkills
        } else {
            p matches CommandPlan::Reply(t) && t@ == SKILLS_USAGE@
        },
        CommandKind::Config => {
            let sub = first_word(args);
            let rest = after_first_word(args);
            if sub == "get"@ || sub.len() == 0 {
                p matches CommandPlan::GetConfig(key) && match key {
                    Some(kk) => rest == Some(kk@),
                    None => rest is None,
                }
            } else if sub == "set"@ {
                let kv = or_empty(rest);
                match after_first_word(kv) {
                    Some(value) => p matches CommandPlan::SetConfig(key, val) && key@ == first_word(kv) && val@ == value,
                    None => p matches CommandPlan::Reply(t) && t@ == CONFIG_SET_USAGE@,
                }
            } else {
                p matches CommandPlan::Reply(t) && t@ == CONFIG_USAGE@
            }
        },
    }
}

/// `/theme dark` and a bare `/theme` switch to the dark theme, `/theme light` to the light
/// one; the two themes differ.
pub proof fn law_theme_choice(p: CommandPlan, model: Seq<char>)
    ensures
        plan_spec(p, CommandKind::Theme, "dark"@, model) ==> p == CommandPlan::SwitchTheme(ThemeChoice::Dark),
        plan_spec(p, CommandKind::Theme, Seq::empty(), model) ==> p == CommandPlan::SwitchTheme(ThemeChoice::Dark),
        plan_spec(p, CommandKind::Theme, "light"@, model) ==> p == CommandPlan::SwitchTheme(ThemeChoice::Light),
        ThemeChoice::Dark != ThemeChoice::Light,
{
    reveal_strlit("dark");
    reveal_strlit("light");
    assert("dark"@ != "light"@) by {
        assert("dark"@[0] != "light"@[0]);
    }
}

fn reply(s: &str) -> (p: CommandPlan)
    ensures
        p matches CommandPlan::Reply(t) && t@ == s@,
{
    CommandPlan::Reply(String::from_str(s))
}

/// What carrying out `cmd` takes; `model` names the model currently in use.
pub fn plan_command(cmd: &SlashCommand, model: &str) -> (p: CommandPlan)
    ensures
        plan_spec(p, command_view(*cmd).0, command_view(*cmd).1, model@),
{
    match cmd {
        SlashCommand::Help => CommandPlan::Reply(help_text()),
        SlashCommand::Model => {
            let mut t = String::from_str("Current model: ");
            append_str(&mut t, model);
            CommandPlan::Reply(t)
        },
        SlashCommand::Cost => CommandPlan::ShowCost,
        SlashCommand::Clear => CommandPlan::ClearScreen,
        SlashCommand::Theme(args) => {
            if str_eq(args.as_str(), "light") {
                CommandPlan::SwitchTheme(ThemeChoice::Light)
            } else if str_eq(args.as_str(), "dark") || args.as_str().is_empty() {
                CommandPlan::SwitchTheme(ThemeChoice::Dark)
            } else {
                let mut t = String::from_str("Unknown theme: ");
                append_str(&mut t, args.as_str());
                append_str(&mut t, ". Use /theme dark or /theme light.");
                CommandPlan::Reply(t)
            }
        },
        SlashCommand::Session(args) => {
            if str_eq(args.as_str(), "new") {
                CommandPlan::CreateSession
            } else if str_eq(args.as_str(), "list") {
                CommandPlan::ListSessions
            } else {
                reply(SESSION_USAGE)
            }
        },
        SlashCommand::Memory(args) => {
            let v = chars_of(args.as_str());
            let (sub, rest) = split_once(&v, ' ');
            let rest_text = match rest {
                Some(r) => string_of(&r),
                None => String::new(),
            };
            if chars_eq_str(&sub, "persona") {
                CommandPlan::PersonaSummary
            } else if chars_eq_str(&sub, "events") {
                let n = match parse_usize(rest_text.as_str()) {
                    Some(n) => n,
                    None => DEFAULT_EVENT_LIMIT,
                };
                CommandPlan::ListEvents(n)
            } else if chars_eq_str(&sub, "cognitions") {
                if rest_text.as_str().is_empty() {
                    CommandPlan::ListCognitions(String::from_str("USER"))
                } else {
                    CommandPlan::ListCognitions(rest_text)
                }
            } else if chars_eq_str(&sub, "search") {
                if rest_text.as_str().is_empty() {
                    reply(SEARCH_USAGE)
                } else {
                    CommandPlan::SearchEvents(rest_text)
                }
            } else {
                reply(MEMORY_USAGE)
            }
        },
        SlashCommand::Skills(args) => {
            if str_eq(args.as_str(), "list") || args.as_str().is_empty() {
                CommandPlan::ListSkills
            } else {
                reply(SKILLS_USAGE)
            }
        },
        SlashCommand::Config(args) => {
            let v = chars_of(args.as_str());
            let (sub, rest) = split_once(&v, ' ');
            if chars_eq_str(&sub, "get") || sub.len() == 0 {
                let key = match rest {
                    Some(r) => Some(string_of(&r)),
                    None => None,
                };
                CommandPlan::GetConfig(key)
            } else if chars_eq_str(&sub, "set") {
                let kv = match rest {
                    Some(r) => r,
                    None => Vec::new(),
                };
                let (key, value) = split_once(&kv, ' ');
                match value {
                    Some(val) => CommandPlan::SetConfig(string_of(&key), string_of(&val)),
                    None => reply(CONFIG_SET_USAGE),
                }
            } else {
                reply(CONFIG_USAGE)
            }
        },
    }
}

// ── carrying out a plan on the chat screen ──

/// What of the chat screen the slash commands change.
pub struct ChatScreen {
    pub messages: Vec<Message>,
    pub scroll: usize,
    pub auto_scroll: bool,
    pub theme: ThemeChoice,
    pub session_id: String,
}

/// The reply to a plan the screen carries out itself; none for one that asks the engine
/// (or, for the cost, a report of numbers the screen formats).
pub open spec fn screen_reply(p: CommandPlan) -> Option<Seq<char>> {
    match p {
        CommandPlan::Reply(t) => Some(t@),
        CommandPlan::ClearScreen => Some("Screen cleared."@),
        CommandPlan::SwitchTheme(ThemeChoice::Light) => Some("Theme switched to light."@),
        CommandPlan::SwitchTheme(ThemeChoice::Dark) => Some("Theme switched to dark."@),
        _ => None,
    }
}

pub open spec fn reply_opt(o: Option<String>) -> Option<Seq<char>> {
    match o {
        Some(s) => Some(s@),
        None => None,
    }
}

/// Carries out what the screen does itself: `/clear` empties the messages, scrolls to the
/// bottom and follows new content again; `/theme` switches the theme; a ready reply is given
/// as it is. Any other plan leaves the screen as it was and gives no reply.
pub fn apply_to_screen(screen: &mut ChatScreen, plan: &CommandPlan) -> (reply: Option<String>)
    ensures
        reply_opt(reply) == screen_reply(*plan),
        *plan is ClearScreen ==> {
            &&& final(screen).messages@.len() == 0
            &&& final(screen).scroll == 0
            &&& final(screen).auto_scroll
            &&& final(screen).theme == old(screen).theme
            &&& final(screen).session_id == old(screen).session_id
        },
        *plan matches CommandPlan::SwitchTheme(c) ==> {
            &&& final(screen).theme == c
            &&& final(screen).messages == old(screen).messages
            &&& final(screen).scroll == old(screen).scroll
            &&& final(screen).auto_scroll == old(screen).auto_scroll
            &&& final(screen).session_id == old(screen).session_id
        },
        !(*plan is ClearScreen) && !(*plan is SwitchTheme) ==> *final(screen) == *old(screen),
{
    match plan {
        CommandPlan::Reply(t) => Some(t.clone()),
        CommandPlan::ClearScreen => {
            screen.messages = Vec::new();
            screen.scroll = 0;
            screen.auto_scroll = true;
            Some(String::from_str("Screen cleared."))
        },
        CommandPlan::SwitchTheme(c) => {
            screen.theme = *c;
            match c {
                ThemeChoice::Light => Some(String::from_str("Theme switched to light.")),
                ThemeChoice::Dark => Some(String::from_str("Theme switched to dark.")),
            }
        },
        _ => None,
    }
}

/// After the engine made a new session for `/session new`: the screen moves to it with no
/// messages, and says so.
pub fn session_created(screen: &mut ChatScreen, id: String) -> (reply: String)
    ensures
        reply@ == "Created session: "@ + id@,
        final(screen).session_id == id,
        final(screen).messages@.len() == 0,
        final(screen).scroll == old(screen).scroll,
        final(screen).auto_scroll == old(screen).auto_scroll,
        final(screen).theme == old(screen).theme,
{
    let mut reply = String::from_str("Created session: ");
    append_str(&mut reply, id.as_str());
    screen.session_id = id;
    screen.messages = Vec::new();
    reply
}

} // verus!
