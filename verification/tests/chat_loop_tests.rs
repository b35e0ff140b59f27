use openloom::chat_loop::{spinner_frame, state_icon, streaming_status, waiting_status, AgentState};
use openloom::command_text::command_spans;
use openloom::plugin_fs::{empty_source_warning, listing_parse_warning, missing_source_warning};
use openloom::doctor::{env_line, escape_backslashes, model_file_tag};
use openloom::app_state::{AppState, Message};
use openloom::chat_loop::{
    apply_stream_token, finish_stream, flush_end, message_to_answer, permission_prompt, poll_timeout_ms, skill_for_command,
    skill_message, with_active_skill,
    unknown_command_message,
};

fn msg(role: &str, content: &str) -> Message {
    Message { role: role.to_string(), content: content.to_string(), collapsed: false, elapsed_ms: None }
}

#[test]
fn permission_prompt_texts() {
    let (title, text) = permission_prompt("shell", "Run ls", "low");
    assert_eq!(title, "Allow shell?");
    assert_eq!(text, "Run ls\n\nRisk: low");
}

#[test]
fn bare_commands_find_skills() {
    let known = vec!["pdf".to_string(), "project:deploy".to_string(), "acme:tools:lint".to_string()];
    assert_eq!(skill_for_command(&known, "/pdf").as_deref(), Some("pdf"));
    assert_eq!(skill_for_command(&known, "//deploy ").as_deref(), Some("project:deploy"));
    assert_eq!(skill_for_command(&known, "/lint").as_deref(), Some("acme:tools:lint"));
    assert_eq!(skill_for_command(&known, "/tools"), None);
    assert_eq!(skill_for_command(&known, "/nothing"), None);
    assert_eq!(
        unknown_command_message("/nothing"),
        "Unknown command: /nothing. Type /help for commands, /skills list for skills."
    );
    let m = skill_message("pdf", "Read PDFs");
    assert_eq!(m.role, "skill");
    assert_eq!(m.content, "[pdf] Read PDFs");
    assert!(m.collapsed);
}

#[test]
fn streams_start_and_finish() {
    assert_eq!(message_to_answer(&vec![msg("assistant", "a"), msg("user", "q")]).as_deref(), Some("q"));
    assert_eq!(message_to_answer(&vec![msg("user", "q"), msg("assistant", "")]), None);
    assert_eq!(message_to_answer(&Vec::new()), None);

    let mut ms = vec![msg("user", "q"), msg("assistant", "")];
    finish_stream(&mut ms, true, Some(1200));
    assert_eq!(ms.len(), 2);
    assert_eq!(ms[1].role, "assistant");
    assert_eq!(ms[1].content, "[no response]");
    assert_eq!(ms[1].elapsed_ms, Some(1200));

    let mut ms = vec![msg("user", "q"), msg("assistant", "answer"), msg("tool_result", "x")];
    finish_stream(&mut ms, false, Some(30));
    assert_eq!(ms[1].elapsed_ms, Some(30));
    assert_eq!(ms[1].content, "answer");
    assert_eq!(ms[2].elapsed_ms, None);
}

#[test]
fn scrollback_and_polling() {
    let ms = vec![msg("user", "q"), msg("assistant", "partial"), msg("thinking", "t")];
    assert_eq!(flush_end(&ms, true), 1);
    assert_eq!(flush_end(&ms, false), 3);
    assert_eq!(flush_end(&vec![msg("user", "q")], true), 1);
    assert_eq!(poll_timeout_ms(AppState::Streaming), 50);
    assert_eq!(poll_timeout_ms(AppState::Waiting), 50);
    assert_eq!(poll_timeout_ms(AppState::Idle), 200);
    assert_eq!(poll_timeout_ms(AppState::Overlay), 200);
}

#[test]
fn toolchain_lines() {
    assert_eq!(escape_backslashes(r"C:\VS\include"), r"C:\\VS\\include");
    let paths = vec![r"C:\a".to_string(), r"D:\b\c".to_string()];
    assert_eq!(env_line("INCLUDE", &paths), r#"INCLUDE = "C:\\a;D:\\b\\c""#);
    assert_eq!(env_line("LIB", &Vec::new()), r#"LIB = """#);
    assert_eq!(model_file_tag("mmproj-qwen.gguf"), " [vision proj]");
    assert_eq!(model_file_tag("qwen.gguf"), "");
}

#[test]
fn streamed_tokens_update_messages() {
    let mut ms = vec![msg("user", "q"), msg("assistant", "")];
    let mut buf = String::new();
    apply_stream_token(&mut ms, &mut buf, "Hel");
    apply_stream_token(&mut ms, &mut buf, "\u{1}CALL\u{2}shell ls");
    apply_stream_token(&mut ms, &mut buf, "lo");
    assert_eq!(buf, "Hello");
    assert_eq!(ms.len(), 3);
    assert_eq!(ms[1].content, "Hello");
    assert_eq!(ms[2].role, "tool_call");
    assert_eq!(ms[2].content, "shell ls");
    assert!(ms[2].collapsed);
    apply_stream_token(&mut ms, &mut buf, "\u{1}THINK\u{2}hmm");
    assert_eq!(ms[3].role, "thinking");
    assert_eq!(
        with_active_skill(Some("Use PDFs"), "read it".to_string()),
        "[Active Skill Instructions]\nUse PDFs\n\n[User Message]\nread it"
    );
    assert_eq!(with_active_skill(None, "read it".to_string()), "read it");
}

#[test]
fn commands_marked_in_text() {
    let pieces = |t: &str| -> Vec<(String, bool)> { command_spans(t) };
    assert_eq!(
        pieces("try /help now"),
        vec![("try ".to_string(), false), ("/help".to_string(), true), (" now".to_string(), false)]
    );
    assert_eq!(
        pieces("a/b /model set x"),
        vec![
            ("a/".to_string(), false),
            ("b ".to_string(), false),
            ("/model".to_string(), true),
            (" set x".to_string(), false)
        ]
    );
    assert_eq!(pieces("/unknown"), vec![("/".to_string(), false), ("unknown".to_string(), false)]);
    assert_eq!(pieces("/help,"), vec![("/help".to_string(), true), (",".to_string(), false)]);
    assert!(pieces("").is_empty());
}

#[test]
fn marketplace_warnings() {
    assert_eq!(listing_parse_warning("repo", "bad json"), "源「repo」marketplace.json 解析失败: bad json");
    assert_eq!(empty_source_warning("repo"), "源「repo」未发现插件或 marketplace.json");
    assert_eq!(
        missing_source_warning("repo", "/x/y"),
        "源「repo」路径不存在（clone 可能失败，请检查URL是否正确）: /x/y"
    );
}

#[test]
fn status_line_texts() {
    assert_eq!(state_icon(AgentState::Idle), "○");
    assert_eq!(state_icon(AgentState::Thinking), "●");
    assert_eq!(state_icon(AgentState::Acting), "◆");
    assert_eq!(spinner_frame(8, false), 2);
    assert_eq!(spinner_frame(8, true), 2);
    assert_eq!(spinner_frame(45, true), 5);
    assert_eq!(spinner_frame(45, false), 1);
    assert_eq!(streaming_status(75, 9), "Streaming… (1m 15s · ↓ ~3 tokens)");
    assert_eq!(streaming_status(5, 0), "Streaming… (5s · ↓ ~0 tokens)");
    assert_eq!(waiting_status(3), "Thinking… (3s)");
}

#[test]
fn palette_rows() {
    use_palette();
}

fn use_palette() {
    assert_eq!(openloom::chat_loop::palette_window(34, 0, 20), Some((10, 0, 10, 0)));
    assert_eq!(openloom::chat_loop::palette_window(34, 12, 20), Some((10, 3, 13, 12)));
    assert_eq!(openloom::chat_loop::palette_window(34, 99, 5), Some((5, 29, 34, 33)));
    assert_eq!(openloom::chat_loop::palette_window(3, 1, 20), Some((3, 0, 3, 1)));
    assert_eq!(openloom::chat_loop::palette_window(3, 1, 0), None);
}
