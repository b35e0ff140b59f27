use std::path::PathBuf;

use openloom::agent_loop::{
    agent_timeout_secs, compaction_prompt, is_cuttable_at, needs_compaction, summary_message, timeout_error,
    truncate_tool_result, words_of, AgentPhase, AgentRequest, AgentRun, ToolCallRef,
};
use openloom::bridge_router::{
    access_from_column, direction_from_column, platform_from_column, platform_key_of, BridgeMessage, MessageRouter,
};
use openloom::bridge_types::{AccessState, MessageContent, MessageDirection, Platform};
use openloom::skills::{scan_external_paths, scan_learned_skills_dir, skill_from_metadata, SkillMetadata, UserSkill};

fn call(id: &str, name: &str) -> ToolCallRef {
    ToolCallRef { id: id.to_string(), name: name.to_string() }
}

#[test]
fn limits_have_floors() {
    assert_eq!(AgentRun::new(3, false).max_iterations, 10);
    assert_eq!(AgentRun::new(25, false).max_iterations, 25);
    assert_eq!(agent_timeout_secs(30), 120);
    assert_eq!(agent_timeout_secs(600), 600);
    assert_eq!(timeout_error(120), "Agent loop timed out after 120s");
}

#[test]
fn text_answer_settles_the_run() {
    let mut run = AgentRun::new(10, true);
    assert_eq!(run.request(), AgentRequest::WithTools { stream: true });
    let words = run.on_reply("all done now".to_string(), 0, 5, 7);
    assert_eq!(words, vec!["all ".to_string(), "done ".to_string(), "now".to_string()]);
    assert_eq!(run.phase, AgentPhase::Done);
    assert_eq!(run.request(), AgentRequest::Nothing);
    assert_eq!(run.outcome(), Ok("all done now".to_string()));
    assert_eq!((run.prompt_tokens, run.completion_tokens), (5, 7));
}

#[test]
fn tool_rounds_then_forced_answer() {
    let mut run = AgentRun::new(10, false);
    for i in 0..10 {
        assert_eq!(run.request(), AgentRequest::WithTools { stream: false });
        assert!(run.on_reply(String::new(), 1, 1, 1).is_empty());
        let rep = run.record_tool(&call(&format!("c{}", i), "shell"), Ok(format!("out{}", i)));
        assert!(rep.success);
        assert_eq!(rep.result, format!("out{}", i));
    }
    assert_eq!(run.phase, AgentPhase::Forcing);
    assert_eq!(run.request(), AgentRequest::TextOnly);
    assert_eq!(run.tool_messages.len(), 20);
    assert_eq!(run.tool_messages[0], ("assistant".to_string(), "ToolCall|c0|shell".to_string()));
    assert_eq!(run.tool_messages[1], ("tool".to_string(), "c0|out0".to_string()));
    run.on_forced_reply(None);
    assert_eq!(run.phase, AgentPhase::Done);
    let answer = run.outcome().unwrap();
    assert!(answer.starts_with("out0\n\n---\n\nout1"));
    assert!(answer.ends_with("out9"));
}

#[test]
fn empty_run_reports_no_response() {
    let mut run = AgentRun::new(10, false);
    run.on_reply(String::new(), 0, 0, 0);
    assert_eq!(run.phase, AgentPhase::Forcing);
    run.on_forced_reply(Some((String::new(), 1, 1)));
    assert_eq!(run.outcome(), Err("Agent loop produced no response after 10 iterations".to_string()));
}

#[test]
fn forced_answer_is_streamed() {
    let mut run = AgentRun::new(10, true);
    run.on_reply(String::new(), 0, 0, 0);
    let words = run.on_forced_reply(Some(("final text".to_string(), 2, 3)));
    assert_eq!(words, vec!["final ".to_string(), "text".to_string()]);
    assert_eq!(run.outcome(), Ok("final text".to_string()));
}

#[test]
fn tool_errors_and_summaries() {
    let mut run = AgentRun::new(10, false);
    run.on_reply(String::new(), 1, 0, 0);
    let rep = run.record_tool(&call("x", "file_read"), Err("no such file".to_string()));
    assert!(!rep.success);
    assert_eq!(rep.result, "Tool error: no such file");
    let long = "a".repeat(250);
    let rep2 = run.record_tool(&call("y", "shell"), Ok(long));
    assert_eq!(rep2.summary, format!("{}...", "a".repeat(200)));
}

#[test]
fn long_results_are_cut() {
    let big = "b".repeat(64010);
    let t = truncate_tool_result(&big);
    assert_eq!(t, format!("{}\n\n[... 10 chars truncated ...]", "b".repeat(64000)));
    assert_eq!(truncate_tool_result("small"), "small");
    assert!(is_cuttable_at("abc", 1));
    assert!(!is_cuttable_at("aé", 2));
}

#[test]
fn compaction_of_long_history() {
    let h = vec![
        ("user".to_string(), "hello".to_string()),
        ("tool".to_string(), "x".to_string()),
        ("assistant".to_string(), "hi".to_string()),
        ("user".to_string(), "more".to_string()),
        ("assistant".to_string(), "sure".to_string()),
        ("user".to_string(), "again".to_string()),
    ];
    assert!(needs_compaction(&h, 10, 100));
    assert!(!needs_compaction(&h, 1000, 100));
    assert!(!needs_compaction(&h, 10, 0));
    let p = compaction_prompt(&h).unwrap();
    assert!(p.ends_with("\n\n[user]: hello\n\n[assistant]: hi"));
    let only_tools = vec![("tool".to_string(), "x".to_string()), ("user".to_string(), "y".to_string())];
    assert_eq!(compaction_prompt(&only_tools), None);
    assert_eq!(
        summary_message("  short  "),
        ("system".to_string(), "[Earlier conversation summary]\nshort".to_string())
    );
    assert_eq!(words_of("a b"), vec!["a ".to_string(), "b".to_string()]);
}

fn bridge_msg(id: &str, sender: &str) -> BridgeMessage {
    BridgeMessage {
        platform: Platform::Telegram,
        chat_id: "chat_1".to_string(),
        sender_id: sender.to_string(),
        sender_name: "Alice".to_string(),
        content: MessageContent::Text("hi".to_string()),
        reply_to: None,
        external_message_id: id.to_string(),
        timestamp: "2024-01-01T00:00:00+00:00".to_string(),
    }
}

#[test]
fn router_admits_then_drops_duplicates() {
    let mut router = MessageRouter::new(PathBuf::from("/tmp/x.db"), 30);
    assert!(router.admit_inbound(&bridge_msg("m1", "u1")));
    assert!(!router.admit_inbound(&bridge_msg("m1", "u1")));
    assert_eq!(router.db_path(), &PathBuf::from("/tmp/x.db"));
}

#[test]
fn router_rate_limits_per_sender() {
    let mut router = MessageRouter::new(PathBuf::from("db"), 2);
    assert!(router.admit_inbound(&bridge_msg("a", "u1")));
    assert!(router.admit_inbound(&bridge_msg("b", "u1")));
    assert!(!router.admit_inbound(&bridge_msg("c", "u1")));
    assert!(router.admit_inbound(&bridge_msg("d", "u2")));
}

#[test]
fn router_outbound_loop_detection() {
    let mut router = MessageRouter::new(PathBuf::from("db"), 30);
    assert!(!router.note_outbound("telegram:chat_1"));
    assert!(!router.note_outbound("telegram:chat_1"));
    assert!(router.note_outbound("telegram:chat_1"));
    assert_eq!(router.loop_count("telegram:chat_1"), 3);
    assert!(!router.admit_inbound(&bridge_msg("z", "u1"))); // looping chat: dropped
    assert_eq!(router.loop_count("telegram:chat_1"), 3);
}

#[test]
fn router_admits_below_loop_threshold_and_resets() {
    let mut router = MessageRouter::new(PathBuf::from("db"), 30);
    assert!(!router.note_outbound("telegram:chat_1"));
    assert!(!router.note_outbound("telegram:chat_1"));
    assert_eq!(router.loop_count("telegram:chat_1"), 2);
    assert!(router.admit_inbound(&bridge_msg("z", "u1")));
    assert_eq!(router.loop_count("telegram:chat_1"), 0);
}

#[test]
fn test_process_inbound_dedup() {
    let mut router = MessageRouter::new(PathBuf::from("test.db"), 30);
    let msg = bridge_msg("unique_id", "user_1");
    let first = router.admit_inbound(&msg);
    assert!(first);
    let second = router.admit_inbound(&msg);
    assert!(!second); // duplicate
}

#[test]
fn test_process_inbound_rate_limit() {
    let mut router = MessageRouter::new(PathBuf::from("test.db"), 2);
    let msg1 = bridge_msg("msg_a", "user_1");
    let msg2 = bridge_msg("msg_b", "user_1");
    let msg3 = bridge_msg("msg_c", "user_1");
    assert!(router.admit_inbound(&msg1));
    assert!(router.admit_inbound(&msg2));
    assert!(!router.admit_inbound(&msg3)); // rate limited
}

#[test]
fn stored_columns_read_with_defaults() {
    assert_eq!(platform_key_of(Platform::QQ, "42"), "qq:42");
    assert_eq!(platform_from_column("FEISHU"), Platform::Feishu);
    assert_eq!(platform_from_column("irc"), Platform::Telegram);
    assert_eq!(access_from_column("nonsense"), AccessState::Active);
    assert_eq!(direction_from_column("outbound"), MessageDirection::Outbound);
    assert_eq!(direction_from_column("x"), MessageDirection::Inbound);
}

fn skill(name: &str) -> UserSkill {
    skill_from_metadata(
        SkillMetadata { name: name.to_string(), description: String::new(), default_enabled: true, disable_model_invocation: false },
        "dir",
        "/s/SKILL.md",
        "/s",
        "external",
    )
}

#[test]
fn skills_from_metadata_and_scans() {
    let unnamed = skill_from_metadata(SkillMetadata::default(), "folder", "f", "b", "user");
    assert_eq!(unnamed.name, "folder");
    assert!(!unnamed.default_enabled);
    let learned = scan_learned_skills_dir(vec![skill("a"), skill("b")], "agent-9");
    assert!(learned.iter().all(|s| s.learned_agent_id.as_deref() == Some("agent-9")));
    assert_eq!(learned[1].name, "b");
    let merged = scan_external_paths(vec![
        ("/one".to_string(), "One".to_string(), vec![skill("x"), skill("y")]),
        ("/two".to_string(), "Two".to_string(), vec![skill("y"), skill("z")]),
    ]);
    let names: Vec<&str> = merged.iter().map(|s| s.name.as_str()).collect();
    assert_eq!(names, vec!["x", "y", "z"]);
    assert_eq!(merged[1].external_label.as_deref(), Some("One"));
    assert_eq!(merged[2].external_path.as_deref(), Some("/two"));
}

#[test]
fn test_process_inbound_creates_session() {
    let mut router = MessageRouter::new(PathBuf::from("test.db"), 30);
    let msg = bridge_msg("msg_1", "user_1");
    assert!(router.admit_inbound(&msg));
    let session_id = platform_key_of(msg.platform, &msg.chat_id);
    assert_eq!(session_id, "telegram:chat_1");
}

#[test]
fn test_record_outbound() {
    let mut router = MessageRouter::new(PathBuf::from("test.db"), 30);
    let msg = bridge_msg("msg_1", "user_1");
    assert!(router.admit_inbound(&msg));
    let session_id = platform_key_of(msg.platform, &msg.chat_id);
    let looping = router.note_outbound(&session_id);
    assert!(!looping);
    assert_eq!(router.loop_count(&session_id), 1);
}
