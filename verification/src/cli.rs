//! The command line: the subcommands and options the program takes, their defaults, and how a
//! list of arguments is read into a command or refused.
//!
//! Grammar: the program's name, then global options (`-h`/`--help`, `-V`/`--version`,
//! `-v`/`--verbose`), then a subcommand (for `skill`, `memory`, `config` and `session`, then an
//! action), then that command's options and positional arguments in any order. A long option
//! takes its value as `--name value` or `--name=value`, a short one as `-x value`, `-x=value` or
//! `-xvalue`; `-v`/`--verbose` and `-h`/`--help` are accepted at every level. An option given
//! twice is refused. A token that starts with `-` and names no option is refused; `--` is not
//! special.

use vstd::prelude::*;

use crate::text::{chars_eq_str, chars_of, clone_opt_string, parse_usize, parse_usize_spec, slice_chars, split_once,
    split_once_spec, string_of};

verus! {

// ── what a command line says ──

pub enum SkillAction {
    List,
    Install { path: String },
    Remove { name: String },
}

pub enum MemoryAction {
    Persona,
    Events { limit: usize },
    Cognitions { subject: String },
}

pub enum ConfigAction {
    Get { key: Option<String> },
    SetValue { key: String, value: String },
    Path,
}

pub enum SessionAction {
    List,
    Create,
}

pub enum Commands {
    Analyze { input: String, output: String, db: String, threshold: usize },
    Serve { port: u16, config: Option<String>, model: Option<String> },
    Chat {
        config: Option<String>,
        model: Option<String>,
        command: Option<String>,
        resume: Option<Option<String>>,
        dangerously_skip_permissions: bool,
    },
    Run { task: String, config: Option<String> },
    Skill { action: SkillAction },
    Memory { action: MemoryAction },
    Config { action: ConfigAction },
    Session { action: SessionAction },
    Doctor,
    DownloadModel { repo: String, file: String, output: Option<String>, list: bool, force: bool },
    Version,
}

/// A command line that was read: the command, and whether `--verbose` was given.
pub struct Cli {
    pub command: Commands,
    pub verbose: bool,
}

/// Why a command line was not read into a command. `DisplayHelp` and `DisplayVersion` are the
/// answers to `--help` and `--version`, which ask for text in place of a command.
pub enum CliError {
    DisplayHelp,
    DisplayVersion,
    MissingSubcommand,
    InvalidSubcommand(String),
    UnknownArgument(String),
    MissingValue(String),
    UnexpectedValue(String),
    DuplicateArgument(String),
    MissingRequired(String),
    InvalidValue(String, String),
    UnexpectedArgument(String),
}

// ── the same, as mathematical values ──

pub enum SkillActionV {
    List,
    Install { path: Seq<char> },
    Remove { name: Seq<char> },
}

pub enum MemoryActionV {
    Persona,
    Events { limit: nat },
    Cognitions { subject: Seq<char> },
}

pub enum ConfigActionV {
    Get { key: Option<Seq<char>> },
    SetValue { key: Seq<char>, value: Seq<char> },
    Path,
}

pub enum CommandV {
    Analyze { input: Seq<char>, output: Seq<char>, db: Seq<char>, threshold: nat },
    Serve { port: nat, config: Option<Seq<char>>, model: Option<Seq<char>> },
    Chat {
        config: Option<Seq<char>>,
        model: Option<Seq<char>>,
        command: Option<Seq<char>>,
        resume: Option<Option<Seq<char>>>,
        dangerously_skip_permissions: bool,
    },
    Run { task: Seq<char>, config: Option<Seq<char>> },
    Skill { action: SkillActionV },
    Memory { action: MemoryActionV },
    Config { action: ConfigActionV },
    Session { create: bool },
    Doctor,
    DownloadModel { repo: Seq<char>, file: Seq<char>, output: Option<Seq<char>>, list: bool, force: bool },
    Version,
}

pub struct CliV {
    pub command: CommandV,
    pub verbose: bool,
}

pub enum CliErrorV {
    DisplayHelp,
    DisplayVersion,
    MissingSubcommand,
    InvalidSubcommand(Seq<char>),
    UnknownArgument(Seq<char>),
    MissingValue(Seq<char>),
    UnexpectedValue(Seq<char>),
    DuplicateArgument(Seq<char>),
    MissingRequired(Seq<char>),
    InvalidValue(Seq<char>, Seq<char>),
    UnexpectedArgument(Seq<char>),
}

pub open spec fn text_opt(o: Option<String>) -> Option<Seq<char>> {
    match o {
        Some(s) => Some(s@),
        None => None,
    }
}

pub open spec fn text_opt2(o: Option<Option<String>>) -> Option<Option<Seq<char>>> {
    match o {
        Some(x) => Some(text_opt(x)),
        None => None,
    }
}

pub open spec fn skill_view(a: SkillAction) -> SkillActionV {
    match a {
        SkillAction::List => SkillActionV::List,
        SkillAction::Install { path } => SkillActionV::Install { path: path@ },
        SkillAction::Remove { name } => SkillActionV::Remove { name: name@ },
    }
}

pub open spec fn memory_view(a: MemoryAction) -> MemoryActionV {
    match a {
        MemoryAction::Persona => MemoryActionV::Persona,
        MemoryAction::Events { limit } => MemoryActionV::Events { limit: limit as nat },
        MemoryAction::Cognitions { subject } => MemoryActionV::Cognitions { subject: subject@ },
    }
}

pub open spec fn config_view(a: ConfigAction) -> ConfigActionV {
    match a {
        ConfigAction::Get { key } => ConfigActionV::Get { key: text_opt(key) },
        ConfigAction::SetValue { key, value } => ConfigActionV::SetValue { key: key@, value: value@ },
        ConfigAction::Path => ConfigActionV::Path,
    }
}

pub open spec fn command_view(c: Commands) -> CommandV {
    match c {
        Commands::Analyze { input, output, db, threshold } => CommandV::Analyze {
            input: input@,
            output: output@,
            db: db@,
            threshold: threshold as nat,
        },
        Commands::Serve { port, config, model } => CommandV::Serve {
            port: port as nat,
            config: text_opt(config),
            model: text_opt(model),
        },
        Commands::Chat { config, model, command, resume, dangerously_skip_permissions } => CommandV::Chat {
            config: text_opt(config),
            model: text_opt(model),
            command: text_opt(command),
            resume: text_opt2(resume),
            dangerously_skip_permissions,
        },
        Commands::Run { task, config } => CommandV::Run { task: task@, config: text_opt(config) },
        Commands::Skill { action } => CommandV::Skill { action: skill_view(action) },
        Commands::Memory { action } => CommandV::Memory { action: memory_view(action) },
        Commands::Config { action } => CommandV::Config { action: config_view(action) },
        Commands::Session { action } => CommandV::Session { create: action is Create },
        Commands::Doctor => CommandV::Doctor,
        Commands::DownloadModel { repo, file, output, list, force } => CommandV::DownloadModel {
            repo: repo@,
            file: file@,
            output: text_opt(output),
            list,
            force,
        },
        Commands::Version => CommandV::Version,
    }
}

impl View for Cli {
    type V = CliV;

    open spec fn view(&self) -> CliV {
        CliV { command: command_view(self.command), verbose: self.verbose }
    }
}

impl View for CliError {
    type V = CliErrorV;

    open spec fn view(&self) -> CliErrorV {
        match self {
            CliError::DisplayHelp => CliErrorV::DisplayHelp,
            CliError::DisplayVersion => CliErrorV::DisplayVersion,
            CliError::MissingSubcommand => CliErrorV::MissingSubcommand,
            CliError::InvalidSubcommand(s) => CliErrorV::InvalidSubcommand(s@),
            CliError::UnknownArgument(s) => CliErrorV::UnknownArgument(s@),
            CliError::MissingValue(s) => CliErrorV::MissingValue(s@),
            CliError::UnexpectedValue(s) => CliErrorV::UnexpectedValue(s@),
            CliError::DuplicateArgument(s) => CliErrorV::DuplicateArgument(s@),
            CliError::MissingRequired(s) => CliErrorV::MissingRequired(s@),
            CliError::InvalidValue(a, v) => CliErrorV::InvalidValue(a@, v@),
            CliError::UnexpectedArgument(s) => CliErrorV::UnexpectedArgument(s@),
        }
    }
}

pub open spec fn result_view(r: Result<Cli, CliError>) -> Result<CliV, CliErrorV> {
    match r {
        Ok(c) => Ok(c@),
        Err(e) => Err(e@),
    }
}

// ── the grammar ──

/// A command that takes options (the actions of the command groups included).
#[derive(Clone, Copy, PartialEq, Eq, Structural)]
pub enum Leaf {
    Analyze,
    Serve,
    Chat,
    Run,
    Doctor,
    DownloadModel,
    Version,
    SkillList,
    SkillInstall,
    SkillRemove,
    MemoryPersona,
    MemoryEvents,
    MemoryCognitions,
    ConfigGet,
    ConfigSet,
    ConfigPath,
    SessionList,
    SessionCreate,
}

/// A command that is followed by an action.
#[derive(Clone, Copy, PartialEq, Eq, Structural)]
pub enum Group {
    Skill,
    Memory,
    Config,
    Session,
}

/// What a subcommand's name names.
#[derive(Clone, Copy, PartialEq, Eq, Structural)]
pub enum Named {
    Leaf(Leaf),
    Group(Group),
}

#[derive(Clone, Copy, PartialEq, Eq, Structural)]
pub enum CliOpt {
    Input,
    Output,
    Db,
    Threshold,
    Port,
    Config,
    Model,
    Command,
    Resume,
    SkipPermissions,
    Repo,
    File,
    List,
    Force,
    Limit,
    Subject,
}

/// Whether an option is a switch, takes a value, or may take one.
#[derive(Clone, Copy, PartialEq, Eq, Structural)]
pub enum ArgKind {
    Flag,
    Value,
    MaybeValue,
}

pub open spec fn subcommand_named(name: Seq<char>) -> Option<Named> {
    if name == "analyze"@ {
        Some(Named::Leaf(Leaf::Analyze))
    } else if name == "serve"@ {
        Some(Named::Leaf(Leaf::Serve))
    } else if name == "chat"@ {
        Some(Named::Leaf(Leaf::Chat))
    } else if name == "run"@ {
        Some(Named::Leaf(Leaf::Run))
    } else if name == "skill"@ {
        Some(Named::Group(Group::Skill))
    } else if name == "memory"@ {
        Some(Named::Group(Group::Memory))
    } else if name == "config"@ {
        Some(Named::Group(Group::Config))
    } else if name == "session"@ {
        Some(Named::Group(Group::Session))
    } else if name == "doctor"@ {
        Some(Named::Leaf(Leaf::Doctor))
    } else if name == "download-model"@ {
        Some(Named::Leaf(Leaf::DownloadModel))
    } else if name == "version"@ {
        Some(Named::Leaf(Leaf::Version))
    } else {
        None
    }
}

pub open spec fn action_named(g: Group, name: Seq<char>) -> Option<Leaf> {
    match g {
        Group::Skill => if name == "list"@ {
            Some(Leaf::SkillList)
        } else if name == "install"@ {
            Some(Leaf::SkillInstall)
        } else if name == "remove"@ {
            Some(Leaf::SkillRemove)
        } else {
            None
        },
        Group::Memory => if name == "persona"@ {
            Some(Leaf::MemoryPersona)
        } else if name == "events"@ {
            Some(Leaf::MemoryEvents)
        } else if name == "cognitions"@ {
            Some(Leaf::MemoryCognitions)
        } else {
            None
        },
        Group::Config => if name == "get"@ {
            Some(Leaf::ConfigGet)
        } else if name == "set"@ {
            Some(Leaf::ConfigSet)
        } else if name == "path"@ {
            Some(Leaf::ConfigPath)
        } else {
            None
        },
        Group::Session => if name == "list"@ {
            Some(Leaf::SessionList)
        } else if name == "create"@ {
            Some(Leaf::SessionCreate)
        } else {
            None
        },
    }
}

/// The command's option of this long name (without the `--`).
pub open spec fn long_opt(l: Leaf, name: Seq<char>) -> Option<CliOpt> {
    match l {
        Leaf::Analyze => if name == "input"@ {
            Some(CliOpt::Input)
        } else if name == "output"@ {
            Some(CliOpt::Output)
        } else if name == "db"@ {
            Some(CliOpt::Db)
        } else if name == "threshold"@ {
            Some(CliOpt::Threshold)
        } else {
            None
        },
        Leaf::Serve => if name == "port"@ {
            Some(CliOpt::Port)
        } else if name == "config"@ {
            Some(CliOpt::Config)
        } else if name == "model"@ {
            Some(CliOpt::Model)
        } else {
            None
        },
        Leaf::Chat => if name == "config"@ {
            Some(CliOpt::Config)
        } else if name == "model"@ {
            Some(CliOpt::Model)
        } else if name == "continue"@ {
            Some(CliOpt::Resume)
        } else if name == "dangerously-skip-permissions"@ {
            Some(CliOpt::SkipPermissions)
        } else {
            None
        },
        Leaf::Run => if name == "config"@ {
            Some(CliOpt::Config)
        } else {
            None
        },
        Leaf::DownloadModel => if name == "repo"@ {
            Some(CliOpt::Repo)
        } else if name == "file"@ {
            Some(CliOpt::File)
        } else if name == "output"@ {
            Some(CliOpt::Output)
        } else if name == "list"@ {
            Some(CliOpt::List)
        } else if name == "force"@ {
            Some(CliOpt::Force)
        } else {
            None
        },
        Leaf::MemoryEvents => if name == "limit"@ {
            Some(CliOpt::Limit)
        } else {
            None
        },
        Leaf::MemoryCognitions => if name == "subject"@ {
            Some(CliOpt::Subject)
        } else {
            None
        },
        _ => None,
    }
}

/// The command's option of this one-letter name.
pub open spec fn short_opt(l: Leaf, c: char) -> Option<CliOpt> {
    match l {
        Leaf::Analyze => if c == 'i' {
            Some(CliOpt::Input)
        } else if c == 'o' {
            Some(CliOpt::Output)
        } else if c == 'd' {
            Some(CliOpt::Db)
        } else if c == 't' {
            Some(CliOpt::Threshold)
        } else {
            None
        },
        Leaf::Chat => if c == 'm' {
            Some(CliOpt::Model)
        } else if c == 'c' {
            Some(CliOpt::Command)
        } else if c == 'r' {
            Some(CliOpt::Resume)
        } else {
            None
        },
        _ => None,
    }
}

pub open spec fn opt_kind(o: CliOpt) -> ArgKind {
    match o {
        CliOpt::SkipPermissions | CliOpt::List | CliOpt::Force => ArgKind::Flag,
        CliOpt::Resume => ArgKind::MaybeValue,
        _ => ArgKind::Value,
    }
}

/// How an option is named in messages.
pub open spec fn opt_name(o: CliOpt) -> Seq<char> {
    match o {
        CliOpt::Input => "--input"@,
        CliOpt::Output => "--output"@,
        CliOpt::Db => "--db"@,
        CliOpt::Threshold => "--threshold"@,
        CliOpt::Port => "--port"@,
        CliOpt::Config => "--config"@,
        CliOpt::Model => "--model"@,
        CliOpt::Command => "-c"@,
        CliOpt::Resume => "--continue"@,
        CliOpt::SkipPermissions => "--dangerously-skip-permissions"@,
        CliOpt::Repo => "--repo"@,
        CliOpt::File => "--file"@,
        CliOpt::List => "--list"@,
        CliOpt::Force => "--force"@,
        CliOpt::Limit => "--limit"@,
        CliOpt::Subject => "--subject"@,
    }
}

/// What one token after the command's name is.
pub enum TokenV {
    Help,
    Verbose,
    Opt(CliOpt, Option<Seq<char>>),
    Unknown,
    Positional,
}

pub open spec fn is_help(t: Seq<char>) -> bool {
    t == "-h"@ || t == "--help"@
}

pub open spec fn is_verbose(t: Seq<char>) -> bool {
    t == "-v"@ || t == "--verbose"@
}

pub open spec fn is_version(t: Seq<char>) -> bool {
    t == "-V"@ || t == "--version"@
}

pub open spec fn short_inline(rest: Seq<char>) -> Option<Seq<char>> {
    if rest.len() == 0 {
        None
    } else if rest[0] == '=' {
        Some(rest.skip(1))
    } else {
        Some(rest)
    }
}

pub open spec fn classify(l: Leaf, t: Seq<char>) -> TokenV {
    if is_help(t) {
        TokenV::Help
    } else if is_verbose(t) {
        TokenV::Verbose
    } else if t.len() > 2 && t[0] == '-' && t[1] == '-' {
        let (name, inline) = split_once_spec(t.skip(2), '=');
        match long_opt(l, name) {
            Some(o) => TokenV::Opt(o, inline),
            None => TokenV::Unknown,
        }
    } else if t.len() >= 2 && t[0] == '-' {
        match short_opt(l, t[1]) {
            Some(o) => TokenV::Opt(o, short_inline(t.skip(2))),
            None => TokenV::Unknown,
        }
    } else {
        TokenV::Positional
    }
}

/// What has been read of a command's tokens: the options given (each once, in order), the
/// positional arguments, and whether `--verbose` was given.
pub struct ScanV {
    pub opts: Seq<(CliOpt, Option<Seq<char>>)>,
    pub pos: Seq<Seq<char>>,
    pub verbose: bool,
}

pub open spec fn has_opt(opts: Seq<(CliOpt, Option<Seq<char>>)>, o: CliOpt) -> bool {
    exists|j: int| 0 <= j < opts.len() && (#[trigger] opts[j]).0 == o
}

pub open spec fn with_opt(st: ScanV, o: CliOpt, v: Option<Seq<char>>) -> ScanV {
    ScanV { opts: st.opts.push((o, v)), pos: st.pos, verbose: st.verbose }
}

pub open spec fn starts_like_option(t: Seq<char>) -> bool {
    t.len() > 0 && t[0] == '-'
}

/// Reads the command's tokens from position `k` on.
pub open spec fn scan(l: Leaf, toks: Seq<Seq<char>>, k: int, st: ScanV) -> Result<ScanV, CliErrorV>
    decreases toks.len() - k,
{
    if k < 0 || k >= toks.len() {
        Ok(st)
    } else {
        let t = toks[k];
        match classify(l, t) {
            TokenV::Help => Err(CliErrorV::DisplayHelp),
            TokenV::Verbose => if st.verbose {
                Err(CliErrorV::DuplicateArgument("--verbose"@))
            } else {
                scan(l, toks, k + 1, ScanV { opts: st.opts, pos: st.pos, verbose: true })
            },
            TokenV::Unknown => Err(CliErrorV::UnknownArgument(t)),
            TokenV::Positional => scan(l, toks, k + 1, ScanV { opts: st.opts, pos: st.pos.push(t), verbose: st.verbose }),
            TokenV::Opt(o, inline) => if has_opt(st.opts, o) {
                Err(CliErrorV::DuplicateArgument(opt_name(o)))
            } else {
                match opt_kind(o) {
                    ArgKind::Flag => if inline is Some {
                        Err(CliErrorV::UnexpectedValue(opt_name(o)))
                    } else {
                        scan(l, toks, k + 1, with_opt(st, o, None))
                    },
                    ArgKind::Value => match inline {
                        Some(v) => scan(l, toks, k + 1, with_opt(st, o, Some(v))),
                        None => if k + 1 < toks.len() {
                            scan(l, toks, k + 2, with_opt(st, o, Some(toks[k + 1])))
                        } else {
                            Err(CliErrorV::MissingValue(opt_name(o)))
                        },
                    },
                    ArgKind::MaybeValue => match inline {
                        Some(v) => scan(l, toks, k + 1, with_opt(st, o, Some(v))),
                        None => if k + 1 < toks.len() && !starts_like_option(toks[k + 1]) {
                            scan(l, toks, k + 2, with_opt(st, o, Some(toks[k + 1])))
                        } else {
                            scan(l, toks, k + 1, with_opt(st, o, None))
                        },
                    },
                }
            },
        }
    }
}

/// The value an option was given (the inner `None` for a switch, or an option given without
/// its optional value), if it was given.
pub open spec fn lookup_from(opts: Seq<(CliOpt, Option<Seq<char>>)>, o: CliOpt, j: int) -> Option<Option<Seq<char>>>
    decreases opts.len() - j,
{
    if j < 0 || j >= opts.len() {
        None
    } else if opts[j].0 == o {
        Some(opts[j].1)
    } else {
        lookup_from(opts, o, j + 1)
    }
}

pub open spec fn text_of(opts: Seq<(CliOpt, Option<Seq<char>>)>, o: CliOpt) -> Option<Seq<char>> {
    match lookup_from(opts, o, 0) {
        Some(Some(v)) => Some(v),
        _ => None,
    }
}

pub open spec fn or_default(o: Option<Seq<char>>, d: Seq<char>) -> Seq<char> {
    match o {
        Some(v) => v,
        None => d,
    }
}

/// A number option: its default when not given, refused when it is not a number up to `max`.
pub open spec fn number_of(opts: Seq<(CliOpt, Option<Seq<char>>)>, o: CliOpt, default: nat, max: nat) -> Result<
    nat,
    CliErrorV,
> {
    match text_of(opts, o) {
        None => Ok(default),
        Some(v) => match parse_usize_spec(v) {
            Some(n) => if n <= max {
                Ok(n)
            } else {
                Err(CliErrorV::InvalidValue(opt_name(o), v))
            },
            None => Err(CliErrorV::InvalidValue(opt_name(o), v)),
        },
    }
}

/// The positional arguments a command takes, and how many of them it must be given.
pub open spec fn positional_names(l: Leaf) -> (Seq<Seq<char>>, nat) {
    match l {
        Leaf::Run => (seq!["<TASK>"@], 1),
        Leaf::SkillInstall => (seq!["<PATH>"@], 1),
        Leaf::SkillRemove => (seq!["<NAME>"@], 1),
        Leaf::ConfigGet => (seq!["<KEY>"@], 0),
        Leaf::ConfigSet => (seq!["<KEY>"@, "<VALUE>"@], 2),
        _ => (seq![], 0),
    }
}

pub open spec fn command_of(l: Leaf, st: ScanV) -> Result<CommandV, CliErrorV> {
    match l {
        Leaf::Analyze => match number_of(st.opts, CliOpt::Threshold, 3, usize::MAX as nat) {
            Err(e) => Err(e),
            Ok(threshold) => match text_of(st.opts, CliOpt::Input) {
                None => Err(CliErrorV::MissingRequired("--input"@)),
                Some(input) => Ok(
                    CommandV::Analyze {
                        input,
                        output: or_default(text_of(st.opts, CliOpt::Output), "profile.json"@),
                        db: or_default(text_of(st.opts, CliOpt::Db), "memory.db"@),
                        threshold,
                    },
                ),
            },
        },
        Leaf::Serve => match number_of(st.opts, CliOpt::Port, 0, 65535) {
            Err(e) => Err(e),
            Ok(port) => Ok(
                CommandV::Serve { port, config: text_of(st.opts, CliOpt::Config), model: text_of(st.opts, CliOpt::Model) },
            ),
        },
        Leaf::Chat => Ok(
            CommandV::Chat {
                config: text_of(st.opts, CliOpt::Config),
                model: text_of(st.opts, CliOpt::Model),
                command: text_of(st.opts, CliOpt::Command),
                resume: lookup_from(st.opts, CliOpt::Resume, 0),
                dangerously_skip_permissions: lookup_from(st.opts, CliOpt::SkipPermissions, 0) is Some,
            },
        ),
        Leaf::Run => Ok(CommandV::Run { task: st.pos[0], config: text_of(st.opts, CliOpt::Config) }),
        Leaf::Doctor => Ok(CommandV::Doctor),
        Leaf::DownloadModel => Ok(
            CommandV::DownloadModel {
                repo: or_default(text_of(st.opts, CliOpt::Repo), "qwen/Qwen3-1.7B-GGUF"@),
                file: or_default(text_of(st.opts, CliOpt::File), "Qwen3-1.7B-Q8_0.gguf"@),
                output: text_of(st.opts, CliOpt::Output),
                list: lookup_from(st.opts, CliOpt::List, 0) is Some,
                force: lookup_from(st.opts, CliOpt::Force, 0) is Some,
            },
        ),
        Leaf::Version => Ok(CommandV::Version),
        Leaf::SkillList => Ok(CommandV::Skill { action: SkillActionV::List }),
        Leaf::SkillInstall => Ok(CommandV::Skill { action: SkillActionV::Install { path: st.pos[0] } }),
        Leaf::SkillRemove => Ok(CommandV::Skill { action: SkillActionV::Remove { name: st.pos[0] } }),
        Leaf::MemoryPersona => Ok(CommandV::Memory { action: MemoryActionV::Persona }),
        Leaf::MemoryEvents => match number_of(st.opts, CliOpt::Limit, 20, usize::MAX as nat) {
            Err(e) => Err(e),
            Ok(limit) => Ok(CommandV::Memory { action: MemoryActionV::Events { limit } }),
        },
        Leaf::MemoryCognitions => Ok(
            CommandV::Memory {
                action: MemoryActionV::Cognitions { subject: or_default(text_of(st.opts, CliOpt::Subject), "USER"@) },
            },
        ),
        Leaf::ConfigGet => Ok(
            CommandV::Config {
                action: ConfigActionV::Get {
                    key: if st.pos.len() > 0 {
                        Some(st.pos[0])
                    } else {
                        None
                    },
                },
            },
        ),
        Leaf::ConfigSet => Ok(CommandV::Config { action: ConfigActionV::SetValue { key: st.pos[0], value: st.pos[1] } }),
        Leaf::ConfigPath => Ok(CommandV::Config { action: ConfigActionV::Path }),
        Leaf::SessionList => Ok(CommandV::Session { create: false }),
        Leaf::SessionCreate => Ok(CommandV::Session { create: true }),
    }
}

/// The command that was read: too many positional arguments are refused first, then too few,
/// then the options' values.
pub open spec fn build(l: Leaf, st: ScanV) -> Result<CliV, CliErrorV> {
    let (names, required) = positional_names(l);
    if st.pos.len() > names.len() {
        Err(CliErrorV::UnexpectedArgument(st.pos[names.len() as int]))
    } else if st.pos.len() < required {
        Err(CliErrorV::MissingRequired(names[st.pos.len() as int]))
    } else {
        match command_of(l, st) {
            Ok(c) => Ok(CliV { command: c, verbose: st.verbose }),
            Err(e) => Err(e),
        }
    }
}

pub open spec fn leaf_spec(l: Leaf, toks: Seq<Seq<char>>, k: int, verbose: bool) -> Result<CliV, CliErrorV> {
    match scan(l, toks, k, ScanV { opts: seq![], pos: seq![], verbose }) {
        Ok(st) => build(l, st),
        Err(e) => Err(e),
    }
}

/// Reads a group's action from position `k` on.
pub open spec fn group_spec(g: Group, toks: Seq<Seq<char>>, k: int, verbose: bool) -> Result<CliV, CliErrorV>
    decreases toks.len() - k,
{
    if k < 0 || k >= toks.len() {
        Err(CliErrorV::MissingSubcommand)
    } else {
        let t = toks[k];
        if is_help(t) {
            Err(CliErrorV::DisplayHelp)
        } else if is_verbose(t) {
            if verbose {
                Err(CliErrorV::DuplicateArgument("--verbose"@))
            } else {
                group_spec(g, toks, k + 1, true)
            }
        } else if starts_like_option(t) && t.len() > 1 {
            Err(CliErrorV::UnknownArgument(t))
        } else if t == "help"@ {
            Err(CliErrorV::DisplayHelp)
        } else {
            match action_named(g, t) {
                Some(l) => leaf_spec(l, toks, k + 1, verbose),
                None => Err(CliErrorV::InvalidSubcommand(t)),
            }
        }
    }
}

/// Reads the global options and the subcommand from position `k` on.
pub open spec fn top_spec(toks: Seq<Seq<char>>, k: int, verbose: bool) -> Result<CliV, CliErrorV>
    decreases toks.len() - k,
{
    if k < 0 || k >= toks.len() {
        Err(CliErrorV::MissingSubcommand)
    } else {
        let t = toks[k];
        if is_help(t) {
            Err(CliErrorV::DisplayHelp)
        } else if is_version(t) {
            Err(CliErrorV::DisplayVersion)
        } else if is_verbose(t) {
            if verbose {
                Err(CliErrorV::DuplicateArgument("--verbose"@))
            } else {
                top_spec(toks, k + 1, true)
            }
        } else if starts_like_option(t) && t.len() > 1 {
            Err(CliErrorV::UnknownArgument(t))
        } else if t == "help"@ {
            Err(CliErrorV::DisplayHelp)
        } else {
            match subcommand_named(t) {
                Some(Named::Leaf(l)) => leaf_spec(l, toks, k + 1, verbose),
                Some(Named::Group(g)) => group_spec(g, toks, k + 1, verbose),
                None => Err(CliErrorV::InvalidSubcommand(t)),
            }
        }
    }
}

/// A whole command line, the program's name first.
pub open spec fn parse_spec(args: Seq<Seq<char>>) -> Result<CliV, CliErrorV> {
    top_spec(args, 1, false)
}

pub open spec fn args_view(args: Seq<&str>) -> Seq<Seq<char>> {
    Seq::new(args.len(), |i: int| args[i]@)
}

// ── reading the tables ──

fn subcommand_of(name: &Vec<char>) -> (r: Option<Named>)
    ensures
        r == subcommand_named(name@),
{
    if chars_eq_str(name, "analyze") {
        Some(Named::Leaf(Leaf::Analyze))
    } else if chars_eq_str(name, "serve") {
        Some(Named::Leaf(Leaf::Serve))
    } else if chars_eq_str(name, "chat") {
        Some(Named::Leaf(Leaf::Chat))
    } else if chars_eq_str(name, "run") {
        Some(Named::Leaf(Leaf::Run))
    } else if chars_eq_str(name, "skill") {
        Some(Named::Group(Group::Skill))
    } else if chars_eq_str(name, "memory") {
        Some(Named::Group(Group::Memory))
    } else if chars_eq_str(name, "config") {
        Some(Named::Group(Group::Config))
    } else if chars_eq_str(name, "session") {
        Some(Named::Group(Group::Session))
    } else if chars_eq_str(name, "doctor") {
        Some(Named::Leaf(Leaf::Doctor))
    } else if chars_eq_str(name, "download-model") {
        Some(Named::Leaf(Leaf::DownloadModel))
    } else if chars_eq_str(name, "version") {
        Some(Named::Leaf(Leaf::Version))
    } else {
        None
    }
}

fn action_of(g: Group, name: &Vec<char>) -> (r: Option<Leaf>)
    ensures
        r == action_named(g, name@),
{
    match g {
        Group::Skill => if chars_eq_str(name, "list") {
            Some(Leaf::SkillList)
        } else if chars_eq_str(name, "install") {
            Some(Leaf::SkillInstall)
        } else if chars_eq_str(name, "remove") {
            Some(Leaf::SkillRemove)
        } else {
            None
        },
        Group::Memory => if chars_eq_str(name, "persona") {
            Some(Leaf::MemoryPersona)
        } else if chars_eq_str(name, "events") {
            Some(Leaf::MemoryEvents)
        } else if chars_eq_str(name, "cognitions") {
            Some(Leaf::MemoryCognitions)
        } else {
            None
        },
        Group::Config => if chars_eq_str(name, "get") {
            Some(Leaf::ConfigGet)
        } else if chars_eq_str(name, "set") {
            Some(Leaf::ConfigSet)
        } else if chars_eq_str(name, "path") {
            Some(Leaf::ConfigPath)
        } else {
            None
        },
        Group::Session => if chars_eq_str(name, "list") {
            Some(Leaf::SessionList)
        } else if chars_eq_str(name, "create") {
            Some(Leaf::SessionCreate)
        } else {
            None
        },
    }
}

fn long_opt_of(l: Leaf, name: &Vec<char>) -> (r: Option<CliOpt>)
    ensures
        r == long_opt(l, name@),
{
    match l {
        Leaf::Analyze => if chars_eq_str(name, "input") {
            Some(CliOpt::Input)
        } else if chars_eq_str(name, "output") {
            Some(CliOpt::Output)
        } else if chars_eq_str(name, "db") {
            Some(CliOpt::Db)
        } else if chars_eq_str(name, "threshold") {
            Some(CliOpt::Threshold)
        } else {
            None
        },
        Leaf::Serve => if chars_eq_str(name, "port") {
            Some(CliOpt::Port)
        } else if chars_eq_str(name, "config") {
            Some(CliOpt::Config)
        } else if chars_eq_str(name, "model") {
            Some(CliOpt::Model)
        } else {
            None
        },
        Leaf::Chat => if chars_eq_str(name, "config") {
            Some(CliOpt::Config)
        } else if chars_eq_str(name, "model") {
            Some(CliOpt::Model)
        } else if chars_eq_str(name, "continue") {
            Some(CliOpt::Resume)
        } else if chars_eq_str(name, "dangerously-skip-permissions") {
            Some(CliOpt::SkipPermissions)
        } else {
            None
        },
        Leaf::Run => if chars_eq_str(name, "config") {
            Some(CliOpt::Config)
        } else {
            None
        },
        Leaf::DownloadModel => if chars_eq_str(name, "repo") {
            Some(CliOpt::Repo)
        } else if chars_eq_str(name, "file") {
            Some(CliOpt::File)
        } else if chars_eq_str(name, "output") {
            Some(CliOpt::Output)
        } else if chars_eq_str(name, "list") {
            Some(CliOpt::List)
        } else if chars_eq_str(name, "force") {
            Some(CliOpt::Force)
        } else {
            None
        },
        Leaf::MemoryEvents => if chars_eq_str(name, "limit") {
            Some(CliOpt::Limit)
        } else {
            None
        },
        Leaf::MemoryCognitions => if chars_eq_str(name, "subject") {
            Some(CliOpt::Subject)
        } else {
            None
        },
        _ => None,
    }
}

fn short_opt_of(l: Leaf, c: char) -> (r: Option<CliOpt>)
    ensures
        r == short_opt(l, c),
{
    match l {
        Leaf::Analyze => if c == 'i' {
            Some(CliOpt::Input)
        } else if c == 'o' {
            Some(CliOpt::Output)
        } else if c == 'd' {
            Some(CliOpt::Db)
        } else if c == 't' {
            Some(CliOpt::Threshold)
        } else {
            None
        },
        Leaf::Chat => if c == 'm' {
            Some(CliOpt::Model)
        } else if c == 'c' {
            Some(CliOpt::Command)
        } else if c == 'r' {
            Some(CliOpt::Resume)
        } else {
            None
        },
        _ => None,
    }
}

fn kind_of(o: CliOpt) -> (r: ArgKind)
    ensures
        r == opt_kind(o),
{
    match o {
        CliOpt::SkipPermissions | CliOpt::List | CliOpt::Force => ArgKind::Flag,
        CliOpt::Resume => ArgKind::MaybeValue,
        _ => ArgKind::Value,
    }
}

fn name_of(o: CliOpt) -> (r: String)
    ensures
        r@ == opt_name(o),
{
    let s: &str = match o {
        CliOpt::Input => "--input",
        CliOpt::Output => "--output",
        CliOpt::Db => "--db",
        CliOpt::Threshold => "--threshold",
        CliOpt::Port => "--port",
        CliOpt::Config => "--config",
        CliOpt::Model => "--model",
        CliOpt::Command => "-c",
        CliOpt::Resume => "--continue",
        CliOpt::SkipPermissions => "--dangerously-skip-permissions",
        CliOpt::Repo => "--repo",
        CliOpt::File => "--file",
        CliOpt::List => "--list",
        CliOpt::Force => "--force",
        CliOpt::Limit => "--limit",
        CliOpt::Subject => "--subject",
    };
    String::from_str(s)
}

// ── reading tokens ──

enum Tok {
    Help,
    Verbose,
    Opt(CliOpt, Option<Vec<char>>),
    Unknown,
    Positional,
}

spec fn chars_opt(o: Option<Vec<char>>) -> Option<Seq<char>> {
    match o {
        Some(v) => Some(v@),
        None => None,
    }
}

spec fn tok_view(t: Tok) -> TokenV {
    match t {
        Tok::Help => TokenV::Help,
        Tok::Verbose => TokenV::Verbose,
        Tok::Opt(o, v) => TokenV::Opt(o, chars_opt(v)),
        Tok::Unknown => TokenV::Unknown,
        Tok::Positional => TokenV::Positional,
    }
}

fn is_help_token(t: &Vec<char>) -> (b: bool)
    ensures
        b == is_help(t@),
{
    chars_eq_str(t, "-h") || chars_eq_str(t, "--help")
}

fn is_verbose_token(t: &Vec<char>) -> (b: bool)
    ensures
        b == is_verbose(t@),
{
    chars_eq_str(t, "-v") || chars_eq_str(t, "--verbose")
}

fn is_version_token(t: &Vec<char>) -> (b: bool)
    ensures
        b == is_version(t@),
{
    chars_eq_str(t, "-V") || chars_eq_str(t, "--version")
}

fn classify_token(l: Leaf, t: &Vec<char>) -> (r: Tok)
    ensures
        tok_view(r) == classify(l, t@),
{
    if is_help_token(t) {
        Tok::Help
    } else if is_verbose_token(t) {
        Tok::Verbose
    } else if t.len() > 2 && t[0] == '-' && t[1] == '-' {
        let body = slice_chars(t, 2, t.len());
        assert(body@ =~= t@.skip(2));
        let (name, inline) = split_once(&body, '=');
        assert(chars_opt(inline) == split_once_spec(t@.skip(2), '=').1);
        match long_opt_of(l, &name) {
            Some(o) => Tok::Opt(o, inline),
            None => Tok::Unknown,
        }
    } else if t.len() >= 2 && t[0] == '-' {
        let rest = slice_chars(t, 2, t.len());
        assert(rest@ =~= t@.skip(2));
        let inline = if rest.len() == 0 {
            None
        } else if rest[0] == '=' {
            let v = slice_chars(&rest, 1, rest.len());
            assert(v@ =~= rest@.skip(1));
            Some(v)
        } else {
            Some(rest)
        };
        match short_opt_of(l, t[1]) {
            Some(o) => Tok::Opt(o, inline),
            None => Tok::Unknown,
        }
    } else {
        Tok::Positional
    }
}

// ── reading a command's options ──

pub open spec fn opts_view(v: Seq<(CliOpt, Option<String>)>) -> Seq<(CliOpt, Option<Seq<char>>)> {
    Seq::new(v.len(), |j: int| (v[j].0, text_opt(v[j].1)))
}

pub open spec fn strs_view(v: Seq<String>) -> Seq<Seq<char>> {
    Seq::new(v.len(), |j: int| v[j]@)
}

pub open spec fn state_view(opts: Seq<(CliOpt, Option<String>)>, pos: Seq<String>, verbose: bool) -> ScanV {
    ScanV { opts: opts_view(opts), pos: strs_view(pos), verbose }
}

fn has_opt_exec(opts: &Vec<(CliOpt, Option<String>)>, o: CliOpt) -> (b: bool)
    ensures
        b == has_opt(opts_view(opts@), o),
{
    let ghost ov = opts_view(opts@);
    let mut j: usize = 0;
    while j < opts.len()
        invariant
            j <= opts@.len(),
            ov == opts_view(opts@),
            forall|i: int| 0 <= i < j ==> (#[trigger] ov[i]).0 != o,
        decreases opts@.len() - j,
    {
        if opts[j].0 == o {
            assert(ov[j as int].0 == o);
            return true;
        }
        j = j + 1;
    }
    false
}

fn push_opt(opts: &mut Vec<(CliOpt, Option<String>)>, o: CliOpt, v: Option<String>)
    ensures
        opts_view(final(opts)@) == opts_view(old(opts)@).push((o, text_opt(v))),
{
    opts.push((o, v));
    assert(opts_view(opts@) =~= opts_view(old(opts)@).push((o, text_opt(v))));
}

fn starts_dash(s: &str) -> (b: bool)
    ensures
        b == starts_like_option(s@),
{
    let v = chars_of(s);
    v.len() > 0 && v[0] == '-'
}

/// Reads the tokens from position `k` on for command `l`: the options and positional
/// arguments found, and whether `--verbose` was given (here or before).
fn scan_exec(l: Leaf, args: &[&str], k: usize, verbose: bool) -> (r: Result<
    (Vec<(CliOpt, Option<String>)>, Vec<String>, bool),
    CliError,
>)
    ensures
        match r {
            Ok((o, p, v)) => scan(l, args_view(args@), k as int, ScanV { opts: seq![], pos: seq![], verbose }) == Ok::<
                ScanV,
                CliErrorV,
            >(state_view(o@, p@, v)),
            Err(e) => scan(l, args_view(args@), k as int, ScanV { opts: seq![], pos: seq![], verbose }) == Err::<
                ScanV,
                CliErrorV,
            >(e@),
        },
{
    let ghost av = args_view(args@);
    let mut opts: Vec<(CliOpt, Option<String>)> = Vec::new();
    let mut pos: Vec<String> = Vec::new();
    let mut vb = verbose;
    let mut i = k;
    assert(opts_view(opts@) =~= Seq::<(CliOpt, Option<Seq<char>>)>::empty());
    assert(strs_view(pos@) =~= Seq::<Seq<char>>::empty());
    while i < args.len()
        invariant
            av == args_view(args@),
            k <= i,
            scan(l, av, k as int, ScanV { opts: seq![], pos: seq![], verbose }) == scan(
                l,
                av,
                i as int,
                state_view(opts@, pos@, vb),
            ),
        decreases args@.len() - i,
    {
        let t = chars_of(args[i]);
        assert(t@ == av[i as int]);
        let ghost st = state_view(opts@, pos@, vb);
        let tok = classify_token(l, &t);
        match tok {
            Tok::Help => {
                return Err(CliError::DisplayHelp);
            },
            Tok::Verbose => {
                if vb {
                    return Err(CliError::DuplicateArgument(String::from_str("--verbose")));
                }
                vb = true;
                i = i + 1;
            },
            Tok::Unknown => {
                return Err(CliError::UnknownArgument(string_of(&t)));
            },
            Tok::Positional => {
                let ghost before = pos@;
                pos.push(string_of(&t));
                assert(strs_view(pos@) =~= strs_view(before).push(t@));
                i = i + 1;
            },
            Tok::Opt(o, inline) => {
                if has_opt_exec(&opts, o) {
                    return Err(CliError::DuplicateArgument(name_of(o)));
                }
                match kind_of(o) {
                    ArgKind::Flag => {
                        if inline.is_some() {
                            return Err(CliError::UnexpectedValue(name_of(o)));
                        }
                        push_opt(&mut opts, o, None);
                        i = i + 1;
                    },
                    ArgKind::Value => {
                        match inline {
                            Some(v) => {
                                push_opt(&mut opts, o, Some(string_of(&v)));
                                i = i + 1;
                            },
                            None => {
                                if i + 1 < args.len() {
                                    push_opt(&mut opts, o, Some(String::from_str(args[i + 1])));
                                    i = i + 2;
                                } else {
                                    return Err(CliError::MissingValue(name_of(o)));
                                }
                            },
                        }
                    },
                    ArgKind::MaybeValue => {
                        match inline {
                            Some(v) => {
                                push_opt(&mut opts, o, Some(string_of(&v)));
                                i = i + 1;
                            },
                            None => {
                                if i + 1 < args.len() && !starts_dash(args[i + 1]) {
                                    push_opt(&mut opts, o, Some(String::from_str(args[i + 1])));
                                    i = i + 2;
                                } else {
                                    push_opt(&mut opts, o, None);
                                    i = i + 1;
                                }
                            },
                        }
                    },
                }
            },
        }
    }
    Ok((opts, pos, vb))
}

fn lookup_exec(opts: &Vec<(CliOpt, Option<String>)>, o: CliOpt) -> (r: Option<Option<String>>)
    ensures
        text_opt2(r) == lookup_from(opts_view(opts@), o, 0),
{
    let ghost ov = opts_view(opts@);
    let mut j: usize = 0;
    while j < opts.len()
        invariant
            j <= opts@.len(),
            ov == opts_view(opts@),
            lookup_from(ov, o, 0) == lookup_from(ov, o, j as int),
        decreases opts@.len() - j,
    {
        if opts[j].0 == o {
            return Some(clone_opt_string(&opts[j].1));
        }
        j = j + 1;
    }
    None
}

fn text_exec(opts: &Vec<(CliOpt, Option<String>)>, o: CliOpt) -> (r: Option<String>)
    ensures
        text_opt(r) == text_of(opts_view(opts@), o),
{
    match lookup_exec(opts, o) {
        Some(Some(v)) => Some(v),
        _ => None,
    }
}

fn flag_exec(opts: &Vec<(CliOpt, Option<String>)>, o: CliOpt) -> (b: bool)
    ensures
        b == lookup_from(opts_view(opts@), o, 0) is Some,
{
    lookup_exec(opts, o).is_some()
}

fn or_default_exec(o: Option<String>, d: &str) -> (r: String)
    ensures
        r@ == or_default(text_opt(o), d@),
{
    match o {
        Some(v) => v,
        None => String::from_str(d),
    }
}

fn number_exec(opts: &Vec<(CliOpt, Option<String>)>, o: CliOpt, default: usize, max: usize) -> (r: Result<usize, CliError>)
    ensures
        match r {
            Ok(n) => number_of(opts_view(opts@), o, default as nat, max as nat) == Ok::<nat, CliErrorV>(n as nat),
            Err(e) => number_of(opts_view(opts@), o, default as nat, max as nat) == Err::<nat, CliErrorV>(e@),
        },
{
    match text_exec(opts, o) {
        None => Ok(default),
        Some(v) => match parse_usize(v.as_str()) {
            Some(n) => if n <= max {
                Ok(n)
            } else {
                Err(CliError::InvalidValue(name_of(o), v))
            },
            None => Err(CliError::InvalidValue(name_of(o), v)),
        },
    }
}

// ── the command that was read ──

fn positional_limits(l: Leaf) -> (r: (usize, usize))
    ensures
        r.0 == positional_names(l).0.len(),
        r.1 == positional_names(l).1,
{
    match l {
        Leaf::Run | Leaf::SkillInstall | Leaf::SkillRemove => (1, 1),
        Leaf::ConfigGet => (1, 0),
        Leaf::ConfigSet => (2, 2),
        _ => (0, 0),
    }
}

fn positional_name(l: Leaf, i: usize) -> (r: String)
    requires
        i < positional_names(l).0.len(),
    ensures
        r@ == positional_names(l).0[i as int],
{
    let s: &str = match l {
        Leaf::Run => "<TASK>",
        Leaf::SkillInstall => "<PATH>",
        Leaf::SkillRemove => "<NAME>",
        Leaf::ConfigSet => if i == 0 {
            "<KEY>"
        } else {
            "<VALUE>"
        },
        _ => "<KEY>",
    };
    String::from_str(s)
}

fn build_exec(l: Leaf, opts: Vec<(CliOpt, Option<String>)>, pos: Vec<String>, verbose: bool) -> (r: Result<Cli, CliError>)
    ensures
        result_view(r) == build(l, state_view(opts@, pos@, verbose)),
{
    let ghost st = state_view(opts@, pos@, verbose);
    let (max, required) = positional_limits(l);
    if pos.len() > max {
        return Err(CliError::UnexpectedArgument(pos[max].clone()));
    }
    if pos.len() < required {
        return Err(CliError::MissingRequired(positional_name(l, pos.len())));
    }
    let command = match l {
        Leaf::Analyze => {
            let threshold = match number_exec(&opts, CliOpt::Threshold, 3, usize::MAX) {
                Ok(n) => n,
                Err(e) => {
                    return Err(e);
                },
            };
            let input = match text_exec(&opts, CliOpt::Input) {
                Some(v) => v,
                None => {
                    return Err(CliError::MissingRequired(String::from_str("--input")));
                },
            };
            Commands::Analyze {
                input,
                output: or_default_exec(text_exec(&opts, CliOpt::Output), "profile.json"),
                db: or_default_exec(text_exec(&opts, CliOpt::Db), "memory.db"),
                threshold,
            }
        },
        Leaf::Serve => {
            let port = match number_exec(&opts, CliOpt::Port, 0, 65535) {
                Ok(n) => n,
                Err(e) => {
                    return Err(e);
                },
            };
            Commands::Serve {
                port: port as u16,
                config: text_exec(&opts, CliOpt::Config),
                model: text_exec(&opts, CliOpt::Model),
            }
        },
        Leaf::Chat => Commands::Chat {
            config: text_exec(&opts, CliOpt::Config),
            model: text_exec(&opts, CliOpt::Model),
            command: text_exec(&opts, CliOpt::Command),
            resume: lookup_exec(&opts, CliOpt::Resume),
            dangerously_skip_permissions: flag_exec(&opts, CliOpt::SkipPermissions),
        },
        Leaf::Run => Commands::Run { task: pos[0].clone(), config: text_exec(&opts, CliOpt::Config) },
        Leaf::Doctor => Commands::Doctor,
        Leaf::DownloadModel => Commands::DownloadModel {
            repo: or_default_exec(text_exec(&opts, CliOpt::Repo), "qwen/Qwen3-1.7B-GGUF"),
            file: or_default_exec(text_exec(&opts, CliOpt::File), "Qwen3-1.7B-Q8_0.gguf"),
            output: text_exec(&opts, CliOpt::Output),
            list: flag_exec(&opts, CliOpt::List),
            force: flag_exec(&opts, CliOpt::Force),
        },
        Leaf::Version => Commands::Version,
        Leaf::SkillList => Commands::Skill { action: SkillAction::List },
        Leaf::SkillInstall => Commands::Skill { action: SkillAction::Install { path: pos[0].clone() } },
        Leaf::SkillRemove => Commands::Skill { action: SkillAction::Remove { name: pos[0].clone() } },
        Leaf::MemoryPersona => Commands::Memory { action: MemoryAction::Persona },
        Leaf::MemoryEvents => {
            let limit = match number_exec(&opts, CliOpt::Limit, 20, usize::MAX) {
                Ok(n) => n,
                Err(e) => {
                    return Err(e);
                },
            };
            Commands::Memory { action: MemoryAction::Events { limit } }
        },
        Leaf::MemoryCognitions => Commands::Memory {
            action: MemoryAction::Cognitions { subject: or_default_exec(text_exec(&opts, CliOpt::Subject), "USER") },
        },
        Leaf::ConfigGet => Commands::Config {
            action: ConfigAction::Get {
                key: if pos.len() > 0 {
                    Some(pos[0].clone())
                } else {
                    None
                },
            },
        },
        Leaf::ConfigSet => Commands::Config {
            action: ConfigAction::SetValue { key: pos[0].clone(), value: pos[1].clone() },
        },
        Leaf::ConfigPath => Commands::Config { action: ConfigAction::Path },
        Leaf::SessionList => Commands::Session { action: SessionAction::List },
        Leaf::SessionCreate => Commands::Session { action: SessionAction::Create },
    };
    Ok(Cli { command, verbose })
}

fn leaf_exec(l: Leaf, args: &[&str], k: usize, verbose: bool) -> (r: Result<Cli, CliError>)
    ensures
        result_view(r) == leaf_spec(l, args_view(args@), k as int, verbose),
{
    match scan_exec(l, args, k, verbose) {
        Ok((opts, pos, vb)) => build_exec(l, opts, pos, vb),
        Err(e) => Err(e),
    }
}

fn group_exec(g: Group, args: &[&str], k: usize, verbose: bool) -> (r: Result<Cli, CliError>)
    ensures
        result_view(r) == group_spec(g, args_view(args@), k as int, verbose),
{
    let ghost av = args_view(args@);
    let mut vb = verbose;
    let mut i = k;
    while i < args.len()
        invariant
            av == args_view(args@),
            k <= i,
            group_spec(g, av, k as int, verbose) == group_spec(g, av, i as int, vb),
        decreases args@.len() - i,
    {
        let t = chars_of(args[i]);
        assert(t@ == av[i as int]);
        if is_help_token(&t) {
            return Err(CliError::DisplayHelp);
        } else if is_verbose_token(&t) {
            if vb {
                return Err(CliError::DuplicateArgument(String::from_str("--verbose")));
            }
            vb = true;
            i = i + 1;
        } else if t.len() > 1 && t[0] == '-' {
            return Err(CliError::UnknownArgument(string_of(&t)));
        } else if chars_eq_str(&t, "help") {
            return Err(CliError::DisplayHelp);
        } else {
            return match action_of(g, &t) {
                Some(l) => leaf_exec(l, args, i + 1, vb),
                None => Err(CliError::InvalidSubcommand(string_of(&t))),
            };
        }
    }
    Err(CliError::MissingSubcommand)
}

impl Cli {
    /// Reads a command line (the program's name first) into a command, or says why it
    /// cannot: exactly as `parse_spec` describes.
    pub fn try_parse_from(args: &[&str]) -> (r: Result<Cli, CliError>)
        ensures
            result_view(r) == parse_spec(args_view(args@)),
    {
        let ghost av = args_view(args@);
        let mut verbose = false;
        let mut i: usize = 1;
        while i < args.len()
            invariant
                av == args_view(args@),
                1 <= i,
                top_spec(av, 1, false) == top_spec(av, i as int, verbose),
            decreases args@.len() - i,
        {
            let t = chars_of(args[i]);
            assert(t@ == av[i as int]);
            if is_help_token(&t) {
                return Err(CliError::DisplayHelp);
            } else if is_version_token(&t) {
                return Err(CliError::DisplayVersion);
            } else if is_verbose_token(&t) {
                if verbose {
                    return Err(CliError::DuplicateArgument(String::from_str("--verbose")));
                }
                verbose = true;
                i = i + 1;
            } else if t.len() > 1 && t[0] == '-' {
                return Err(CliError::UnknownArgument(string_of(&t)));
            } else if chars_eq_str(&t, "help") {
                return Err(CliError::DisplayHelp);
            } else {
                return match subcommand_of(&t) {
                    Some(Named::Leaf(l)) => leaf_exec(l, args, i + 1, verbose),
                    Some(Named::Group(g)) => group_exec(g, args, i + 1, verbose),
                    None => Err(CliError::InvalidSubcommand(string_of(&t))),
                };
            }
        }
        Err(CliError::MissingSubcommand)
    }
}

} // verus!
