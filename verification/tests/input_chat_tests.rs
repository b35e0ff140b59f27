use openloom::app_state::{HistoryDirection, Message};
use openloom::chat_view::{
    chat_commands, chat_help_text, chat_history_step, filter_commands, parse_chat_command, suggestion_window,
    ChatCommand,
};
use openloom::input::{
    cancel_stream_messages, complete_path, completion_cut_ok, completion_target, cycle_index,
    history_search_matches, pick_index, plan_basic_key, plan_key, toggle_thinking, KeyPlan,
};
use openloom::keys::{Action, KeyCode, KeyModifiers};

fn msg(role: &str, collapsed: bool) -> Message {
    Message { role: role.to_string(), content: role.to_string(), collapsed, elapsed_ms: None }
}

#[test]
fn send_key_plans() {
    assert!(matches!(plan_key(Action::Send, KeyCode::Enter, false, false, "  hi  "), KeyPlan::SubmitMessage(ref m) if m == "hi"));
    assert!(matches!(plan_key(Action::Send, KeyCode::Enter, false, false, "/help"), KeyPlan::SubmitCommand(ref c) if c == "/help"));
    assert!(matches!(plan_key(Action::Send, KeyCode::Enter, false, false, "//lit"), KeyPlan::SubmitMessage(_)));
    assert!(matches!(plan_key(Action::Send, KeyCode::Enter, false, false, "   "), KeyPlan::Nothing));
    assert!(matches!(plan_key(Action::Send, KeyCode::Enter, true, true, "x"), KeyPlan::PickHistoryMatch));
    assert!(matches!(plan_key(Action::Send, KeyCode::Enter, false, true, "/h"), KeyPlan::PickPaletteItem));
}

#[test]
fn arrow_and_escape_plans() {
    assert!(matches!(plan_key(Action::HistoryUp, KeyCode::Up, false, false, ""), KeyPlan::NavigateHistory(HistoryDirection::Prev)));
    assert!(matches!(plan_key(Action::HistoryUp, KeyCode::Up, false, true, ""), KeyPlan::CyclePalette(-1)));
    assert!(matches!(plan_key(Action::HistoryDown, KeyCode::Down, true, false, ""), KeyPlan::CycleHistorySearch(1)));
    assert!(matches!(plan_key(Action::Noop, KeyCode::Esc, true, false, ""), KeyPlan::CloseHistorySearch));
    assert!(matches!(plan_key(Action::Noop, KeyCode::Esc, false, true, ""), KeyPlan::ClosePalette));
    assert!(matches!(plan_key(Action::Noop, KeyCode::Char('a'), false, false, ""), KeyPlan::TypeKey { reset_selection: true }));
    assert!(matches!(plan_key(Action::Noop, KeyCode::Up, false, false, ""), KeyPlan::TypeKey { reset_selection: false }));
    assert!(matches!(plan_key(Action::Quit, KeyCode::Char('c'), false, false, ""), KeyPlan::CtrlC));
    assert!(matches!(plan_key(Action::ScrollUp, KeyCode::PageUp, false, false, ""), KeyPlan::ScrollUp(25)));
    assert!(matches!(plan_key(Action::Autocomplete, KeyCode::Tab, false, false, ""), KeyPlan::CompletePath));
    assert!(matches!(plan_key(Action::Autocomplete, KeyCode::Tab, false, true, ""), KeyPlan::CompleteFromPalette));
}

#[test]
fn basic_key_plans() {
    assert!(matches!(plan_basic_key(KeyCode::Char('c'), KeyModifiers::control(), "x"), KeyPlan::Quit));
    assert!(matches!(plan_basic_key(KeyCode::Char('l'), KeyModifiers::control(), "x"), KeyPlan::Nothing));
    assert!(matches!(plan_basic_key(KeyCode::Char('c'), KeyModifiers::none(), "x"), KeyPlan::TypeKey { .. }));
    assert!(matches!(plan_basic_key(KeyCode::PageDown, KeyModifiers::none(), ""), KeyPlan::ScrollDown(10)));
    assert!(matches!(plan_basic_key(KeyCode::Enter, KeyModifiers::none(), "/x"), KeyPlan::SubmitCommand(_)));
}

#[test]
fn cycling_wraps_around() {
    assert_eq!(cycle_index(0, -1, 3), 2);
    assert_eq!(cycle_index(2, 1, 3), 0);
    assert_eq!(cycle_index(1, 1, 3), 2);
    assert_eq!(cycle_index(5, 1, 3), 0);
    assert_eq!(pick_index(7, 3), 2);
    assert_eq!(pick_index(1, 3), 1);
    assert_eq!(pick_index(4, 0), 0);
}

#[test]
fn history_search_newest_first() {
    let history = vec!["Build it".to_string(), "test".to_string(), "rebuild".to_string()];
    assert_eq!(history_search_matches(&history, "BUILD"), vec!["rebuild".to_string(), "Build it".to_string()]);
    assert_eq!(history_search_matches(&history, "").len(), 3);
    assert!(history_search_matches(&history, "zzz").is_empty());
}

#[test]
fn toggling_thinking_after_last_user_message() {
    let mut ms = vec![msg("thinking", true), msg("user", false), msg("thinking", true), msg("assistant", false), msg("tool_call", false)];
    toggle_thinking(&mut ms);
    assert!(ms[0].collapsed);
    assert!(!ms[2].collapsed);
    assert!(!ms[3].collapsed);
    assert!(ms[4].collapsed);
}

#[test]
fn cancelling_a_stream() {
    let mut ms = vec![msg("user", false), msg("assistant", false)];
    cancel_stream_messages(&mut ms, "partial answer");
    assert_eq!(ms.len(), 2);
    assert_eq!(ms[1].role, "assistant");
    assert_eq!(ms[1].content, "partial answer [cancelled]");
    let mut ms2 = vec![msg("user", false)];
    cancel_stream_messages(&mut ms2, "");
    assert_eq!(ms2.len(), 2);
    assert_eq!(ms2[1].content, "[cancelled]");
}

#[test]
fn path_completion() {
    assert!(completion_target("open ").is_some());
    assert!(completion_target("   ").is_none());
    let t = completion_target("cat src/ma").unwrap();
    assert_eq!(t.word, "src/ma");
    assert_eq!(t.dir.as_deref(), Some("src/"));
    assert_eq!(t.prefix, "ma");
    let entries = vec![("main.rs".to_string(), false), ("lib.rs".to_string(), false), ("Macros".to_string(), true)];
    assert!(completion_cut_ok("cat src/ma", &t.word));
    assert_eq!(complete_path("cat src/ma", &t, &entries), None);
    let one = vec![("main.rs".to_string(), false), ("lib.rs".to_string(), false)];
    assert_eq!(complete_path("cat src/ma", &t, &one), Some("cat src/main.rs".to_string()));
    let t2 = completion_target("ls Mac").unwrap();
    assert_eq!(t2.dir, None);
    assert_eq!(complete_path("ls Mac", &t2, &entries), Some("ls Macros/".to_string()));
}

#[test]
fn chat_commands_parse() {
    assert!(matches!(parse_chat_command("hello"), ChatCommand::NotCommand));
    assert!(matches!(parse_chat_command(" /exit "), ChatCommand::Exit));
    assert!(matches!(parse_chat_command("/session new"), ChatCommand::NewSession));
    assert!(matches!(parse_chat_command("/session switch  abc "), ChatCommand::SwitchSession(ref s) if s == "abc"));
    assert!(matches!(parse_chat_command("/session switch "), ChatCommand::NotCommand));
    assert!(matches!(parse_chat_command("/session switch x"), ChatCommand::SwitchSession(_)));
    assert!(matches!(parse_chat_command("/memory events 5"), ChatCommand::MemoryEvents(5)));
    assert!(matches!(parse_chat_command("/memory events"), ChatCommand::MemoryEvents(10)));
    assert!(matches!(parse_chat_command("/memory eventsx"), ChatCommand::MemoryEvents(10)));
    assert!(matches!(parse_chat_command("/config theme"), ChatCommand::Config(Some(ref k)) if k == "theme"));
    assert!(matches!(parse_chat_command("/config"), ChatCommand::Config(None)));
    assert!(matches!(parse_chat_command("/unknown"), ChatCommand::NotCommand));
}

#[test]
fn chat_help_lists_sections() {
    let h = chat_help_text();
    assert!(h.starts_with("Chat:\n  /exit \u{2014} Quit openLoom\n"));
    assert!(h.contains("\nSession:\n  /session \u{2014} List sessions\n"));
    assert!(h.contains("\nMemory:\n"));
    assert!(h.ends_with("  /version \u{2014} Version info\n"));
    assert_eq!(chat_commands().len(), 17);
}

#[test]
fn chat_suggestions_and_history() {
    let s = filter_commands("  /mem");
    assert_eq!(s.len(), 3);
    assert_eq!(s[0].0, "/memory persona");
    assert!(filter_commands("mem").is_empty());
    assert_eq!(chat_history_step(3, None, -1), Some(2));
    assert_eq!(chat_history_step(3, None, 1), None);
    assert_eq!(chat_history_step(3, Some(0), -1), None);
    assert_eq!(chat_history_step(3, Some(1), 1), Some(2));
    assert_eq!(chat_history_step(0, None, -1), None);
    assert_eq!(suggestion_window(5, 4, 8), (0, 5));
    assert_eq!(suggestion_window(20, 10, 8), (6, 14));
    assert_eq!(suggestion_window(20, 19, 8), (12, 20));
}
