use openloom::commands::{help_text, parse_slash_command, plan_command, CommandPlan, SlashCommand, ThemeChoice};
use openloom::app_state::Message;
use openloom::commands::{apply_to_screen, session_created, ChatScreen};

#[test]
fn test_parse_help() {
    assert!(matches!(parse_slash_command("/help"), Some(SlashCommand::Help)));
    assert!(matches!(parse_slash_command("/h"), Some(SlashCommand::Help)));
}

#[test]
fn test_parse_model() {
    assert!(matches!(parse_slash_command("/model"), Some(SlashCommand::Model)));
    assert!(matches!(parse_slash_command("/m"), Some(SlashCommand::Model)));
}

#[test]
fn test_parse_cost() {
    assert!(matches!(parse_slash_command("/cost"), Some(SlashCommand::Cost)));
}

#[test]
fn test_parse_clear() {
    assert!(matches!(parse_slash_command("/clear"), Some(SlashCommand::Clear)));
    assert!(matches!(parse_slash_command("/cls"), Some(SlashCommand::Clear)));
}

#[test]
fn test_parse_theme() {
    match parse_slash_command("/theme dark") {
        Some(SlashCommand::Theme(a)) => assert_eq!(a, "dark"),
        other => panic!("expected Theme(\"dark\"), got {:?}", other),
    }
    match parse_slash_command("/theme light") {
        Some(SlashCommand::Theme(a)) => assert_eq!(a, "light"),
        other => panic!("expected Theme(\"light\"), got {:?}", other),
    }
    match parse_slash_command("/theme") {
        Some(SlashCommand::Theme(a)) => assert!(a.is_empty()),
        other => panic!("expected Theme(\"\"), got {:?}", other),
    }
}

#[test]
fn test_parse_session() {
    match parse_slash_command("/session new") {
        Some(SlashCommand::Session(a)) => assert_eq!(a, "new"),
        other => panic!("expected Session(\"new\"), got {:?}", other),
    }
    match parse_slash_command("/session list") {
        Some(SlashCommand::Session(a)) => assert_eq!(a, "list"),
        other => panic!("expected Session(\"list\"), got {:?}", other),
    }
}

#[test]
fn test_parse_memory() {
    match parse_slash_command("/memory persona") {
        Some(SlashCommand::Memory(a)) => assert_eq!(a, "persona"),
        other => panic!("expected Memory(\"persona\"), got {:?}", other),
    }
    match parse_slash_command("/memory events 10") {
        Some(SlashCommand::Memory(a)) => assert_eq!(a, "events 10"),
        other => panic!("expected Memory(\"events 10\"), got {:?}", other),
    }
    match parse_slash_command("/memory search hello world") {
        Some(SlashCommand::Memory(a)) => assert_eq!(a, "search hello world"),
        other => panic!("expected Memory(\"search hello world\"), got {:?}", other),
    }
}

#[test]
fn test_parse_skills() {
    assert!(matches!(parse_slash_command("/skills"), Some(SlashCommand::Skills(_))));
    assert!(matches!(parse_slash_command("/skill list"), Some(SlashCommand::Skills(_))));
}

#[test]
fn test_parse_config() {
    match parse_slash_command("/config get foo") {
        Some(SlashCommand::Config(a)) => assert_eq!(a, "get foo"),
        other => panic!("expected Config(\"get foo\"), got {:?}", other),
    }
    match parse_slash_command("/config set foo bar") {
        Some(SlashCommand::Config(a)) => assert_eq!(a, "set foo bar"),
        other => panic!("expected Config(\"set foo bar\"), got {:?}", other),
    }
}

#[test]
fn test_parse_unknown() {
    assert!(parse_slash_command("/foobar").is_none());
    assert!(parse_slash_command("/").is_none());
}

#[test]
fn test_literal_slash() {
    assert!(parse_slash_command("//help").is_none());
    assert!(parse_slash_command("//anything").is_none());
}

#[test]
fn test_no_slash() {
    assert!(parse_slash_command("hello").is_none());
    assert!(parse_slash_command("").is_none());
}

#[test]
fn test_help_text_contains_all_commands() {
    let text = help_text();
    assert!(text.contains("/help"));
    assert!(text.contains("/model"));
    assert!(text.contains("/cost"));
    assert!(text.contains("/clear"));
    assert!(text.contains("/theme"));
    assert!(text.contains("/session"));
    assert!(text.contains("/memory"));
    assert!(text.contains("/skills"));
    assert!(text.contains("/config"));
    assert!(text.contains("//"));
}

#[test]
fn parse_is_case_insensitive_and_trims() {
    assert!(matches!(parse_slash_command("  /HELP  "), Some(SlashCommand::Help)));
    match parse_slash_command("/Theme Light") {
        Some(SlashCommand::Theme(a)) => assert_eq!(a, "Light"),
        other => panic!("unexpected {:?}", other),
    }
}

#[test]
fn plan_reply_texts() {
    match plan_command(&SlashCommand::Model, "qwen") {
        CommandPlan::Reply(t) => assert_eq!(t, "Current model: qwen"),
        other => panic!("unexpected {:?}", other),
    }
    match plan_command(&SlashCommand::Theme("blue".to_string()), "m") {
        CommandPlan::Reply(t) => assert_eq!(t, "Unknown theme: blue. Use /theme dark or /theme light."),
        other => panic!("unexpected {:?}", other),
    }
    assert!(matches!(plan_command(&SlashCommand::Theme(String::new()), "m"), CommandPlan::SwitchTheme(ThemeChoice::Dark)));
    assert!(matches!(plan_command(&SlashCommand::Theme("light".into()), "m"), CommandPlan::SwitchTheme(ThemeChoice::Light)));
    match plan_command(&SlashCommand::Session("x".into()), "m") {
        CommandPlan::Reply(t) => assert_eq!(t, "Usage: /session [new|list]"),
        other => panic!("unexpected {:?}", other),
    }
}

#[test]
fn plan_memory_arguments() {
    assert!(matches!(plan_command(&SlashCommand::Memory("events 10".into()), "m"), CommandPlan::ListEvents(10)));
    assert!(matches!(plan_command(&SlashCommand::Memory("events".into()), "m"), CommandPlan::ListEvents(20)));
    assert!(matches!(plan_command(&SlashCommand::Memory("events x".into()), "m"), CommandPlan::ListEvents(20)));
    match plan_command(&SlashCommand::Memory("cognitions".into()), "m") {
        CommandPlan::ListCognitions(s) => assert_eq!(s, "USER"),
        other => panic!("unexpected {:?}", other),
    }
    match plan_command(&SlashCommand::Memory("search hello world".into()), "m") {
        CommandPlan::SearchEvents(q) => assert_eq!(q, "hello world"),
        other => panic!("unexpected {:?}", other),
    }
    match plan_command(&SlashCommand::Memory("search".into()), "m") {
        CommandPlan::Reply(t) => assert_eq!(t, "Usage: /memory search <query>"),
        other => panic!("unexpected {:?}", other),
    }
}

#[test]
fn plan_config_arguments() {
    match plan_command(&SlashCommand::Config("get foo".into()), "m") {
        CommandPlan::GetConfig(Some(k)) => assert_eq!(k, "foo"),
        other => panic!("unexpected {:?}", other),
    }
    assert!(matches!(plan_command(&SlashCommand::Config(String::new()), "m"), CommandPlan::GetConfig(None)));
    match plan_command(&SlashCommand::Config("set foo bar baz".into()), "m") {
        CommandPlan::SetConfig(k, v) => {
            assert_eq!(k, "foo");
            assert_eq!(v, "bar baz");
        }
        other => panic!("unexpected {:?}", other),
    }
    match plan_command(&SlashCommand::Config("set foo".into()), "m") {
        CommandPlan::Reply(t) => assert_eq!(t, "Usage: /config set <key> <value>"),
        other => panic!("unexpected {:?}", other),
    }
    assert!(matches!(plan_command(&SlashCommand::Skills(String::new()), "m"), CommandPlan::ListSkills));
    assert!(matches!(plan_command(&SlashCommand::Cost, "m"), CommandPlan::ShowCost));
}

fn screen() -> ChatScreen {
    ChatScreen {
        messages: vec![Message::user("hi".to_string()), Message::assistant("hello".to_string())],
        scroll: 7,
        auto_scroll: false,
        theme: ThemeChoice::Dark,
        session_id: "s1".to_string(),
    }
}

#[test]
fn clear_empties_the_screen() {
    let mut sc = screen();
    let plan = plan_command(&SlashCommand::Clear, "qwen");
    assert_eq!(apply_to_screen(&mut sc, &plan).as_deref(), Some("Screen cleared."));
    assert!(sc.messages.is_empty());
    assert_eq!(sc.scroll, 0);
    assert!(sc.auto_scroll);
    assert_eq!(sc.session_id, "s1");
}

#[test]
fn theme_and_engine_plans_on_screen() {
    let mut sc = screen();
    let plan = plan_command(&SlashCommand::Theme("light".to_string()), "qwen");
    assert_eq!(apply_to_screen(&mut sc, &plan).as_deref(), Some("Theme switched to light."));
    assert_eq!(sc.theme, ThemeChoice::Light);
    assert_eq!(sc.messages.len(), 2);
    let plan = plan_command(&SlashCommand::Session("list".to_string()), "qwen");
    assert_eq!(apply_to_screen(&mut sc, &plan), None);
    assert_eq!(sc.scroll, 7);
    let plan = plan_command(&SlashCommand::Model, "qwen");
    assert_eq!(apply_to_screen(&mut sc, &plan).as_deref(), Some("Current model: qwen"));
    assert_eq!(session_created(&mut sc, "s2".to_string()), "Created session: s2");
    assert_eq!(sc.session_id, "s2");
    assert!(sc.messages.is_empty());
}
