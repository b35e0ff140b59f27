use openloom::keys::{Action, KeyCode, KeyContext, KeyEvent, KeyModifiers, ResolvedKeymap};
use openloom::models::{context_hint, is_model_file, order_models, resolve_active_model, ContextHint, ModelRef};
use openloom::tools::{build_tool_definitions, input_schema_for_skill, sanitize_tool_name};

fn key(code: KeyCode, modifiers: KeyModifiers) -> KeyEvent {
    KeyEvent::new(code, modifiers)
}

#[test]
fn test_input_enter_is_send() {
    let km = ResolvedKeymap::default();
    let ev = key(KeyCode::Enter, KeyModifiers::none());
    assert_eq!(km.resolve(&ev, KeyContext::Input), Action::Send);
}

#[test]
fn test_global_ctrl_c_is_quit() {
    let km = ResolvedKeymap::default();
    let ev = key(KeyCode::Char('c'), KeyModifiers::control());
    assert_eq!(km.resolve(&ev, KeyContext::Input), Action::Quit);
}

#[test]
fn test_streaming_ctrl_c_is_cancel() {
    let km = ResolvedKeymap::default();
    let ev = key(KeyCode::Char('c'), KeyModifiers::control());
    assert_eq!(km.resolve(&ev, KeyContext::Streaming), Action::CancelStream);
}

#[test]
fn test_streaming_esc_is_cancel() {
    let km = ResolvedKeymap::default();
    let ev = key(KeyCode::Esc, KeyModifiers::none());
    assert_eq!(km.resolve(&ev, KeyContext::Streaming), Action::CancelStream);
}

#[test]
fn test_unknown_key_is_noop() {
    let km = ResolvedKeymap::default();
    let ev = key(KeyCode::Char('x'), KeyModifiers::none());
    assert_eq!(km.resolve(&ev, KeyContext::Input), Action::Noop);
}

#[test]
fn test_up_is_history_up() {
    let km = ResolvedKeymap::default();
    let ev = key(KeyCode::Up, KeyModifiers::none());
    assert_eq!(km.resolve(&ev, KeyContext::Input), Action::HistoryUp);
}

#[test]
fn test_down_is_history_down() {
    let km = ResolvedKeymap::default();
    let ev = key(KeyCode::Down, KeyModifiers::none());
    assert_eq!(km.resolve(&ev, KeyContext::Input), Action::HistoryDown);
}

#[test]
fn test_pageup_is_scroll_up() {
    let km = ResolvedKeymap::default();
    let ev = key(KeyCode::PageUp, KeyModifiers::none());
    assert_eq!(km.resolve(&ev, KeyContext::Global), Action::ScrollUp);
}

#[test]
fn test_overlay_esc_is_dismiss() {
    let km = ResolvedKeymap::default();
    let ev = key(KeyCode::Esc, KeyModifiers::none());
    assert_eq!(km.resolve(&ev, KeyContext::Overlay), Action::DismissOverlay);
}

#[test]
fn test_overlay_enter_is_confirm() {
    let km = ResolvedKeymap::default();
    let ev = key(KeyCode::Enter, KeyModifiers::none());
    assert_eq!(km.resolve(&ev, KeyContext::Overlay), Action::ConfirmOverlay);
}

#[test]
fn test_shift_enter_is_newline() {
    let km = ResolvedKeymap::default();
    let ev = key(KeyCode::Enter, KeyModifiers::shift());
    assert_eq!(km.resolve(&ev, KeyContext::Input), Action::Newline);
}

#[test]
fn tool_names_are_sanitized() {
    assert_eq!(sanitize_tool_name("web-browser"), "web-browser");
    assert_eq!(sanitize_tool_name("my skill.v2/é"), "my_skill_v2__");
    assert_eq!(sanitize_tool_name(""), "");
}

#[test]
fn tool_schemas_by_skill() {
    let s = input_schema_for_skill("file_edit");
    let names: Vec<&str> = s.fields.iter().map(|f| f.name).collect();
    assert_eq!(names, vec!["path", "old_string", "new_string", "replace_all"]);
    assert_eq!(s.required, vec!["path", "old_string"]);
    assert!(!s.open);
    let r = input_schema_for_skill("schedule-reminder");
    assert_eq!(r.fields[0].allowed, &["add", "list"]);
    assert_eq!(r.fields[0].description, None);
    let other = input_schema_for_skill("translate");
    assert!(other.fields.is_empty() && other.required.is_empty() && other.open);
}

#[test]
fn tool_definitions_drop_clashing_names() {
    let skills = vec![
        ("a b".to_string(), "first".to_string()),
        ("a.b".to_string(), "second".to_string()),
        ("shell".to_string(), "run".to_string()),
    ];
    let tools = build_tool_definitions(&skills);
    assert_eq!(tools.len(), 2);
    assert_eq!(tools[0].name, "a_b");
    assert_eq!(tools[0].description, "first");
    assert_eq!(tools[1].name, "shell");
    assert_eq!(tools[1].input_schema.required, vec!["command"]);
}

#[test]
fn model_files_are_large_gguf_files() {
    let mib = 1024u64 * 1024;
    assert!(is_model_file("qwen.gguf", 100 * mib));
    assert!(!is_model_file("qwen.gguf", 100 * mib - 1));
    assert!(!is_model_file("mmproj-qwen.gguf", 500 * mib));
    assert!(!is_model_file("qwen.bin", 500 * mib));
    assert!(!is_model_file("gguf", 500 * mib));
}

#[test]
fn models_ordered_by_size_stably() {
    let mib = 1024u64 * 1024;
    let files = vec![
        ("big.gguf".to_string(), 900 * mib),
        ("tiny.gguf".to_string(), mib),
        ("a.gguf".to_string(), 200 * mib),
        ("b.gguf".to_string(), 200 * mib),
    ];
    let names: Vec<String> = order_models(files).into_iter().map(|f| f.0).collect();
    assert_eq!(names, vec!["tiny.gguf", "a.gguf", "b.gguf", "big.gguf"]);
}

#[test]
fn context_hints_in_names() {
    assert!(matches!(context_hint("llama [128K]"), Some(ContextHint::Thousands(ref n)) if n == "128"));
    assert!(matches!(context_hint("m [1m]"), Some(ContextHint::Millions(ref n)) if n == "1"));
    assert!(matches!(context_hint("m [32768]"), Some(ContextHint::Count(Some(32768)))));
    assert!(matches!(context_hint("m [abc]"), Some(ContextHint::Count(None))));
    assert!(context_hint("m []").is_none());
    assert!(context_hint("plain").is_none());
}

#[test]
fn active_model_found_by_id_and_provider() {
    let models = vec![
        ModelRef { model: Some("gpt".to_string()), backend: "OpenAI".to_string() },
        ModelRef { model: Some("gpt".to_string()), backend: "azure".to_string() },
        ModelRef { model: None, backend: String::new() },
    ];
    let settings = r#"{"active_model":{"id":"gpt","provider":"AZURE"}}"#;
    assert_eq!(resolve_active_model(&models, settings), Some(1));
    assert_eq!(resolve_active_model(&models, r#"{"active_model":{"id":""}}"#), Some(2));
    assert_eq!(resolve_active_model(&models, r#"{"active_model":{"id":"none"}}"#), None);
    assert_eq!(resolve_active_model(&models, "{}"), None);
}
