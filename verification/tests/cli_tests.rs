use openloom::cli::{Cli, CliError, Commands, ConfigAction, MemoryAction, SessionAction, SkillAction};
use openloom::analyze_log::{read_analysis_log, LogLine};

#[test]
fn test_cli_serve_default() {
    let args = Cli::try_parse_from(&["openloom", "serve"]);
    assert!(args.is_ok());
}

#[test]
fn test_cli_serve_with_port() {
    let args = Cli::try_parse_from(&["openloom", "serve", "--port", "8080"]);
    assert!(args.is_ok());
}

#[test]
fn test_cli_analyze() {
    let args = Cli::try_parse_from(&["openloom", "analyze", "--input", "test.log"]);
    assert!(args.is_ok());
}

#[test]
fn test_cli_version() {
    let args = Cli::try_parse_from(&["openloom", "version"]);
    assert!(args.is_ok());
}

#[test]
fn test_cli_doctor() {
    let args = Cli::try_parse_from(&["openloom", "doctor"]);
    assert!(args.is_ok());
}

#[test]
fn test_cli_download_model_default() {
    let args = Cli::try_parse_from(&["openloom", "download-model"]);
    assert!(args.is_ok());
}

#[test]
fn test_cli_download_model_list() {
    let args = Cli::try_parse_from(&["openloom", "download-model", "--list"]);
    assert!(args.is_ok());
}

#[test]
fn serve_reads_port_and_defaults() {
    match Cli::try_parse_from(&["openloom", "serve", "--port=8080", "--model", "m.gguf"]) {
        Ok(Cli { command: Commands::Serve { port, config, model }, verbose }) => {
            assert_eq!(port, 8080);
            assert_eq!(config, None);
            assert_eq!(model.as_deref(), Some("m.gguf"));
            assert!(!verbose);
        },
        _ => panic!("serve was not read"),
    }
    match Cli::try_parse_from(&["openloom", "serve"]) {
        Ok(Cli { command: Commands::Serve { port, .. }, .. }) => assert_eq!(port, 0),
        _ => panic!("serve was not read"),
    }
}

#[test]
fn analyze_defaults_and_short_options() {
    match Cli::try_parse_from(&["openloom", "-v", "analyze", "-i", "chat.log", "-t5"]) {
        Ok(Cli { command: Commands::Analyze { input, output, db, threshold }, verbose }) => {
            assert_eq!(input, "chat.log");
            assert_eq!(output, "profile.json");
            assert_eq!(db, "memory.db");
            assert_eq!(threshold, 5);
            assert!(verbose);
        },
        _ => panic!("analyze was not read"),
    }
}

#[test]
fn download_defaults() {
    match Cli::try_parse_from(&["openloom", "download-model", "--force"]) {
        Ok(Cli { command: Commands::DownloadModel { repo, file, output, list, force }, .. }) => {
            assert_eq!(repo, "qwen/Qwen3-1.7B-GGUF");
            assert_eq!(file, "Qwen3-1.7B-Q8_0.gguf");
            assert_eq!(output, None);
            assert!(!list);
            assert!(force);
        },
        _ => panic!("download-model was not read"),
    }
}

#[test]
fn chat_resume_with_and_without_id() {
    match Cli::try_parse_from(&["openloom", "chat", "--continue"]) {
        Ok(Cli { command: Commands::Chat { resume, dangerously_skip_permissions, .. }, .. }) => {
            assert_eq!(resume, Some(None));
            assert!(!dangerously_skip_permissions);
        },
        _ => panic!("chat was not read"),
    }
    match Cli::try_parse_from(&["openloom", "chat", "-r", "s42", "-c", "hello", "--dangerously-skip-permissions"]) {
        Ok(Cli { command: Commands::Chat { resume, command, dangerously_skip_permissions, model, .. }, .. }) => {
            assert_eq!(resume, Some(Some("s42".to_string())));
            assert_eq!(command.as_deref(), Some("hello"));
            assert_eq!(model, None);
            assert!(dangerously_skip_permissions);
        },
        _ => panic!("chat was not read"),
    }
    match Cli::try_parse_from(&["openloom", "chat"]) {
        Ok(Cli { command: Commands::Chat { resume, .. }, .. }) => assert_eq!(resume, None),
        _ => panic!("chat was not read"),
    }
}

#[test]
fn groups_and_positionals() {
    match Cli::try_parse_from(&["openloom", "run", "fix the build"]) {
        Ok(Cli { command: Commands::Run { task, config }, .. }) => {
            assert_eq!(task, "fix the build");
            assert_eq!(config, None);
        },
        _ => panic!("run was not read"),
    }
    match Cli::try_parse_from(&["openloom", "skill", "install", "/s/x"]) {
        Ok(Cli { command: Commands::Skill { action: SkillAction::Install { path } }, .. }) => assert_eq!(path, "/s/x"),
        _ => panic!("skill install was not read"),
    }
    match Cli::try_parse_from(&["openloom", "memory", "events"]) {
        Ok(Cli { command: Commands::Memory { action: MemoryAction::Events { limit } }, .. }) => assert_eq!(limit, 20),
        _ => panic!("memory events was not read"),
    }
    match Cli::try_parse_from(&["openloom", "memory", "cognitions"]) {
        Ok(Cli { command: Commands::Memory { action: MemoryAction::Cognitions { subject } }, .. }) => {
            assert_eq!(subject, "USER")
        },
        _ => panic!("memory cognitions was not read"),
    }
    match Cli::try_parse_from(&["openloom", "config", "set", "agent.name", "loom"]) {
        Ok(Cli { command: Commands::Config { action: ConfigAction::SetValue { key, value } }, .. }) => {
            assert_eq!(key, "agent.name");
            assert_eq!(value, "loom");
        },
        _ => panic!("config set was not read"),
    }
    match Cli::try_parse_from(&["openloom", "config", "get"]) {
        Ok(Cli { command: Commands::Config { action: ConfigAction::Get { key } }, .. }) => assert_eq!(key, None),
        _ => panic!("config get was not read"),
    }
    assert!(matches!(
        Cli::try_parse_from(&["openloom", "session", "create"]),
        Ok(Cli { command: Commands::Session { action: SessionAction::Create }, .. })
    ));
}

#[test]
fn refused_command_lines() {
    assert!(matches!(Cli::try_parse_from(&["openloom"]), Err(CliError::MissingSubcommand)));
    assert!(matches!(Cli::try_parse_from(&["openloom", "--help"]), Err(CliError::DisplayHelp)));
    assert!(matches!(Cli::try_parse_from(&["openloom", "-V"]), Err(CliError::DisplayVersion)));
    assert!(matches!(Cli::try_parse_from(&["openloom", "fly"]), Err(CliError::InvalidSubcommand(s)) if s == "fly"));
    assert!(matches!(
        Cli::try_parse_from(&["openloom", "serve", "--bogus"]),
        Err(CliError::UnknownArgument(s)) if s == "--bogus"
    ));
    assert!(matches!(
        Cli::try_parse_from(&["openloom", "serve", "--port"]),
        Err(CliError::MissingValue(s)) if s == "--port"
    ));
    assert!(matches!(
        Cli::try_parse_from(&["openloom", "serve", "--port", "70000"]),
        Err(CliError::InvalidValue(a, v)) if a == "--port" && v == "70000"
    ));
    assert!(matches!(
        Cli::try_parse_from(&["openloom", "serve", "--port", "1", "--port", "2"]),
        Err(CliError::DuplicateArgument(s)) if s == "--port"
    ));
    assert!(matches!(
        Cli::try_parse_from(&["openloom", "analyze"]),
        Err(CliError::MissingRequired(s)) if s == "--input"
    ));
    assert!(matches!(
        Cli::try_parse_from(&["openloom", "run"]),
        Err(CliError::MissingRequired(s)) if s == "<TASK>"
    ));
    assert!(matches!(
        Cli::try_parse_from(&["openloom", "doctor", "now"]),
        Err(CliError::UnexpectedArgument(s)) if s == "now"
    ));
    assert!(matches!(
        Cli::try_parse_from(&["openloom", "download-model", "--list=yes"]),
        Err(CliError::UnexpectedValue(s)) if s == "--list"
    ));
    assert!(matches!(Cli::try_parse_from(&["openloom", "skill"]), Err(CliError::MissingSubcommand)));
}

#[test]
fn analysis_log_lines() {
    let lines = read_analysis_log("# header\n\ns1|chat|I like tabs\r\nbroken line\ns2|code|a|b with pipes\n  s3 | x | y  ");
    assert_eq!(lines.len(), 6);
    assert!(matches!(lines[0], LogLine::Skip));
    assert!(matches!(lines[1], LogLine::Skip));
    match &lines[2] {
        LogLine::Entry { session_id, context, text } => {
            assert_eq!(session_id, "s1");
            assert_eq!(context, "chat");
            assert_eq!(text, "I like tabs");
        },
        _ => panic!("entry expected"),
    }
    assert!(matches!(&lines[3], LogLine::Malformed(s) if s == "broken line"));
    match &lines[4] {
        LogLine::Entry { text, .. } => assert_eq!(text, "a|b with pipes"),
        _ => panic!("entry expected"),
    }
    match &lines[5] {
        LogLine::Entry { session_id, context, text } => {
            assert_eq!(session_id, "s3 ");
            assert_eq!(context, " x ");
            assert_eq!(text, " y");
        },
        _ => panic!("entry expected"),
    }
}
