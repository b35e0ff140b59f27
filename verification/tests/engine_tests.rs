use openloom::engine_ops::{heartbeat_question, heartbeat_says_yes, plan_job, AutomationExecutor, DueJob, JobRun};
use openloom::engine_ops::{api_key_actions, change_may_carry_keys, change_touches_tools, disabled_tools, KeyAction};
use openloom::engine_ops::{helper_reply, ProcessRequest};
use openloom::bridge_types::{MessageContent, Platform};
use openloom::engine::{
    agent_system_prompt, backend_for_provider, bridge_client, bridge_system_instruction, bridge_turn, bridge_user_text,
    current_model_id, external_skill_names, model_context_size, model_display_name, normalize_permission_mode,
    permission_directive, reply_source, stream_client, system_instruction, user_content, vision_failure_note,
    with_skill_context, Backend, BridgeTurn, ConfiguredModel, ModelClient, PermissionModes, ReplySource, StreamCollector,
    StreamEvent, TargetModel, ASK_DIRECTIVE, NO_MODEL_RESPONSE, OPERATE_DIRECTIVE, READ_ONLY_DIRECTIVE,
};
use openloom::model_choice::{
    cognition_prompt, find_model_in_settings, normalize_base_url, parse_cognition_line, translation_model,
    translation_prompt, utility_model, CognitionLine, ListedModel,
};

#[test]
fn permission_modes_read_back_what_was_set() {
    let mut modes = PermissionModes::new();
    assert_eq!(modes.permission_mode("s1"), "ask");
    assert_eq!(modes.set_permission_mode("s1", "read_only", false), "read_only");
    assert_eq!(modes.permission_mode("s1"), "read_only");
    assert_eq!(modes.permission_mode("s2"), "ask");
    assert_eq!(modes.set_permission_mode("s1", "operate", false), "operate");
    assert_eq!(modes.permission_mode("s1"), "operate");
    assert_eq!(modes.set_permission_mode("", "operate", false), "operate");
    assert_eq!(modes.permission_mode("s2"), "operate");
    assert_eq!(modes.permission_mode(""), "operate");
    assert_eq!(modes.set_permission_mode("s3", "bogus", true), "ask");
    assert_eq!(modes.permission_mode("s3"), "ask");
    assert_eq!(modes.permission_mode("s1"), "operate");
    assert_eq!(normalize_permission_mode("READ_ONLY"), "ask");
}

#[test]
fn system_prompt_parts() {
    assert_eq!(permission_directive("read_only"), READ_ONLY_DIRECTIVE);
    assert_eq!(permission_directive("ask"), ASK_DIRECTIVE);
    assert_eq!(permission_directive("operate"), OPERATE_DIRECTIVE);
    assert!(READ_ONLY_DIRECTIVE.starts_with("## Permission Mode: READ-ONLY\nYou are operating"));
    assert!(ASK_DIRECTIVE.contains("conversation \u{2014} re-confirm"));
    let p = agent_system_prompt("BASE", "ask", "", "me", "");
    assert_eq!(p, format!("BASE\n\n{}\n\n## Identity\nme", ASK_DIRECTIVE));
    let q = agent_system_prompt("B", "x", "persona", "", "calm");
    assert_eq!(q, format!("B\n\n{}\n\npersona\n\n## Consciousness\ncalm", OPERATE_DIRECTIVE));
    let skills = vec![("a".to_string(), "x".to_string()), ("b".to_string(), "y".to_string())];
    assert_eq!(with_skill_context("S".to_string(), &skills), "S\n\n## Available Tools\n- a: x\n- b: y");
    assert_eq!(with_skill_context("S".to_string(), &Vec::new()), "S");
    assert_eq!(user_content(Some("seen"), "hi"), "seen\n\nhi");
    assert_eq!(user_content(None, "hi"), "hi");
    assert_eq!(vision_failure_note("timeout"), "[Image analysis unavailable: timeout]\n\n");
}

#[test]
fn base_system_instruction() {
    let s = system_instruction("/work", "Linux", "");
    assert!(s.starts_with("You are openLoom, a coding assistant"));
    assert!(s.contains("- Working directory: /work\n- Platform: Linux\n"));
    assert!(!s.contains("[cwd]") && !s.contains("[platform]"));
    assert!(s.ends_with("- Be concise and direct.\n"));
    let t = system_instruction("/w", "macOS", "- Git repository");
    assert!(t.ends_with("- Be concise and direct.\n\n\n## Project Context\n- Git repository"));
}

#[test]
fn bridge_prompts() {
    let s = bridge_system_instruction("BASE", Platform::Telegram, "Alice");
    assert_eq!(
        s,
        "BASE\n\n## Bridge Context\nYou are responding via telegram (external messaging platform).\nThe user's name on this platform is: Alice.\nKeep responses concise and conversational. Do not mention internal tools or file paths."
    );
    assert_eq!(bridge_user_text(&MessageContent::Image { url: "u".into(), caption: Some("c".into()) }), "[Image: u]\nc");
    assert_eq!(bridge_user_text(&MessageContent::Image { url: "u".into(), caption: None }), "[Image: u]");
    assert_eq!(
        bridge_user_text(&MessageContent::File { url: "f".into(), name: "a.pdf".into(), size: 3 }),
        "[File: a.pdf (f)]"
    );
    assert_eq!(bridge_user_text(&MessageContent::Audio { url: "v".into(), duration_secs: 2 }), "[Audio: v]");
    assert!(matches!(bridge_turn("SYS", &MessageContent::Text("  \n".into())),
        BridgeTurn::Reply(ref r) if r == "(No text content received)"));
    assert!(matches!(bridge_turn("SYS", &MessageContent::Text("hi".into())),
        BridgeTurn::Prompt(ref p) if p == "SYS\n\nUser: hi"));
}

#[test]
fn client_choices() {
    assert_eq!(stream_client(true, true, true), Ok(ModelClient::Picked));
    assert_eq!(stream_client(false, true, true), Ok(ModelClient::Cloud));
    assert_eq!(stream_client(false, false, true), Ok(ModelClient::Local));
    assert_eq!(stream_client(false, false, false), Err("no model client available".to_string()));
    assert_eq!(bridge_client(false, true), Ok(ModelClient::Local));
    assert_eq!(bridge_client(false, false), Err("no inference backend available for bridge message".to_string()));
    let settings = r#"{"active_model":{"id":"gpt-4o","provider":"openai"}}"#;
    assert!(matches!(reply_source(TargetModel::Local, true, true, settings), ReplySource::Local));
    assert!(matches!(reply_source(TargetModel::Local, false, true, settings), ReplySource::Cloud));
    assert!(matches!(reply_source(TargetModel::Cloud, true, false, settings), ReplySource::Local));
    assert!(matches!(reply_source(TargetModel::Cloud, false, false, settings),
        ReplySource::ActiveModel { ref id, ref provider } if id == "gpt-4o" && provider == "openai"));
    assert!(matches!(reply_source(TargetModel::Cloud, false, false, r#"{"active_model":{"id":"x","provider":""}}"#),
        ReplySource::NoModel));
    assert!(NO_MODEL_RESPONSE.starts_with("当前没有可用的模型"));
}

#[test]
fn streamed_tokens() {
    let mut c = StreamCollector::new();
    assert!(c.on_token("\u{0}meta").is_empty());
    let e = c.on_token("\u{2}REASONING\u{2}think");
    assert!(matches!(e.as_slice(), [StreamEvent::ThinkingDelta(d)] if d == "think"));
    assert!(c.on_token("\u{2}").is_empty());
    let e = c.on_token("Hel");
    assert!(matches!(e.as_slice(), [StreamEvent::ThinkingEnd, StreamEvent::StreamDelta(d)] if d == "Hel"));
    let e = c.on_token("lo");
    assert!(matches!(e.as_slice(), [StreamEvent::StreamDelta(d)] if d == "lo"));
    assert!(c.finish().is_none());
    let e = c.on_token("\u{2}more");
    assert!(matches!(e.as_slice(), [StreamEvent::ThinkingDelta(d)] if d == "more"));
    assert!(matches!(c.finish(), Some(StreamEvent::ThinkingEnd)));
    assert_eq!(c.full_response(), "Hello");
}

#[test]
fn backends_and_context_sizes() {
    assert_eq!(backend_for_provider("LM-Studio"), Backend::LmStudio);
    assert_eq!(backend_for_provider("Anthropic"), Backend::Anthropic);
    assert_eq!(backend_for_provider("groq"), Backend::OpenAI);
    let m = |backend, context_size, name_hint, cloud_capable, local_inference| ConfiguredModel {
        backend,
        context_size,
        name_hint,
        cloud_capable,
        local_inference,
    };
    assert_eq!(model_context_size(&vec![m(Backend::DeepSeek, 65536, None, true, false)], false, false), 65536);
    assert_eq!(model_context_size(&vec![m(Backend::DeepSeek, 4096, Some(1_000_000), true, false)], false, false), 1_000_000);
    assert_eq!(model_context_size(&vec![m(Backend::Anthropic, 0, None, true, false)], false, false), 200_000);
    assert_eq!(model_context_size(&vec![m(Backend::Ollama, 8192, None, false, true)], true, false), 128_000);
    assert_eq!(model_context_size(&vec![m(Backend::Ollama, 8192, None, false, true)], false, true), 32_000);
    assert_eq!(model_context_size(&vec![m(Backend::Ollama, 8192, None, false, true)], false, false), 8192);
    assert_eq!(model_context_size(&Vec::new(), false, false), 4096);
    assert_eq!(model_display_name(Some(("gpt", "openai")), Some(("q", "local"))), "gpt (openai)");
    assert_eq!(model_display_name(None, Some(("q", "local"))), "q (local)");
    assert_eq!(model_display_name(None, None), "no model configured");
    assert_eq!(current_model_id(None, Some("q")), "q");
    assert_eq!(current_model_id(None, None), "");
    let skills = vec![
        ("pdf".to_string(), "a".to_string()),
        ("plug:tool".to_string(), "b".to_string()),
        ("x:y".to_string(), "c".to_string()),
    ];
    let ext = external_skill_names(&skills);
    assert_eq!(ext, vec![("plug:tool".to_string(), "b".to_string()), ("x:y".to_string(), "c".to_string())]);
}

#[test]
fn models_from_settings() {
    assert_eq!(normalize_base_url("http://localhost:1234//", Backend::LmStudio), "http://localhost:1234/v1");
    assert_eq!(normalize_base_url("http://h/v1/", Backend::OpenAI), "http://h/v1");
    assert_eq!(normalize_base_url("https://api.anthropic.com/", Backend::Anthropic), "https://api.anthropic.com");
    assert_eq!(normalize_base_url("///", Backend::Ollama), "");
    let settings = r#"{"general":{"providers":{
        "LMStudio":{"models":["qwen-7b",{"id":"llama"}],"base_url":"http://localhost:1234","api_key_env":"LM_KEY"},
        "openai":{"models":[{"id":"gpt-4o"}]}}}}"#;
    let m = find_model_in_settings(settings, "llama", "lmstudio").unwrap();
    assert_eq!(m.name, "LMStudio");
    assert_eq!(m.model, "llama");
    assert_eq!(m.backend, Backend::LmStudio);
    assert_eq!(m.api_key_env.as_deref(), Some("LM_KEY"));
    assert_eq!(m.base_url.as_deref(), Some("http://localhost:1234/v1"));
    assert_eq!(m.context_size, 128000);
    assert!(find_model_in_settings(settings, "missing", "lmstudio").is_none());
    assert!(find_model_in_settings(settings, "gpt-4o", "anthropic").is_none());
    let o = find_model_in_settings(settings, "gpt-4o", "OpenAI").unwrap();
    assert!(o.base_url.is_none() && o.api_key_env.is_none());
    let with_utility = r#"{"models":{"models":{"utility":{"id":"qwen-7b"}}},
        "providers":{"lmstudio":{"models":["qwen-7b"]}}}"#;
    assert_eq!(utility_model(with_utility).unwrap().name, "lmstudio");
    assert!(utility_model("{}").is_none());
}

#[test]
fn translation_model_choice() {
    let listed = vec![
        ListedModel { model: None, name: String::new(), backend_name: "openai".into() },
        ListedModel { model: None, name: "deepseek-chat".into(), backend_name: "deepseek".into() },
    ];
    let active = r#"{"active_model":{"id":"m1","provider":"p1"}}"#;
    assert_eq!(translation_model(active, &listed), Ok(("m1".to_string(), "p1".to_string())));
    assert_eq!(translation_model("{}", &listed), Ok(("deepseek-chat".to_string(), "deepseek".to_string())));
    let providers = r#"{"providers":{"a":{"models":[]},"b":{"models":[{"id":"bm"}]}}}"#;
    assert_eq!(translation_model(providers, &Vec::new()), Ok(("bm".to_string(), "b".to_string())));
    assert_eq!(
        translation_model("{}", &Vec::new()),
        Err("No model configured. Please add a model in Settings \u{2192} Providers first.".to_string())
    );
    assert_eq!(
        translation_prompt("hola", "English"),
        "Translate the following text to English. IMPORTANT: output ONLY the translated text, preserve all markdown formatting (headings, lists, code blocks, links), do NOT add any explanations or notes.\n\nhola"
    );
}

#[test]
fn cognition_lines() {
    assert!(cognition_prompt("I write Rust").contains("\n\nText:\nI write Rust\n\nOutput one line per fact."));
    assert!(matches!(parse_cognition_line("  NONE "), CognitionLine::Skip));
    assert!(matches!(parse_cognition_line(""), CognitionLine::Skip));
    match parse_cognition_line(" Tech Stack : Rust, Python (confidence: 0.9)) ") {
        CognitionLine::Fact { trait_name, value, confidence } => {
            assert_eq!(trait_name, "tech_stack");
            assert_eq!(value, "Rust, Python");
            assert_eq!(confidence.as_deref(), Some("0.9"));
        }
        _ => panic!("expected a fact"),
    }
    match parse_cognition_line("profession: backend engineer") {
        CognitionLine::Fact { trait_name, value, confidence } => {
            assert_eq!(trait_name, "profession");
            assert_eq!(value, "backend engineer");
            assert!(confidence.is_none());
        }
        _ => panic!("expected a fact"),
    }
    assert!(matches!(parse_cognition_line(": value"), CognitionLine::Skip));
    assert!(matches!(parse_cognition_line("likes: (confidence: 0.5)"), CognitionLine::Skip));
    assert!(matches!(parse_cognition_line("{}"),
        CognitionLine::Json { ref trait_name, ref value } if trait_name == "general" && value == "{}"));
    assert!(matches!(parse_cognition_line("just words"), CognitionLine::Skip));
}

#[test]
fn automations_and_heartbeat() {
    let notify = DueJob {
        id: "j1".into(),
        label: "Stand-up".into(),
        prompt: "p".into(),
        executor: Some(AutomationExecutor::DirectAction { action: "notify".into(), title: None, body: Some("now".into()) }),
    };
    assert!(matches!(plan_job(&notify), JobRun::Notify { ref title, ref body } if title == "Stand-up" && body == "now"));
    let agent = DueJob { id: "j2".into(), label: "Report".into(), prompt: "Sum up".into(), executor: None };
    assert!(matches!(plan_job(&agent),
        JobRun::Agent { ref session_id, ref message } if session_id == "cron-j2" && message == "[定时任务: Report]\n\nSum up"));
    let other = DueJob {
        id: "j3".into(),
        label: "L".into(),
        prompt: "P".into(),
        executor: Some(AutomationExecutor::DirectAction { action: "email".into(), title: None, body: None }),
    };
    assert!(matches!(plan_job(&other), JobRun::Agent { .. }));
    assert_eq!(
        heartbeat_question(true, 7260, 120).as_deref(),
        Some("User idle 121 min. Should agent take action? Reply ONLY yes or no.")
    );
    assert_eq!(heartbeat_question(true, 7199, 120), None);
    assert_eq!(heartbeat_question(false, 99999, 1), None);
    assert!(heartbeat_says_yes("  YES\n"));
    assert!(heartbeat_says_yes("yes."));
    assert!(!heartbeat_says_yes("no"));
}

#[test]
fn settings_changes() {
    assert!(change_may_carry_keys("general"));
    assert!(change_may_carry_keys("settings.providers"));
    assert!(!change_may_carry_keys("settings"));
    assert!(change_touches_tools("settings.tools") && change_touches_tools("settings"));
    assert!(!change_touches_tools("settings.tool"));
    assert_eq!(disabled_tools(r#"{"tools":{"disabled":["shell",3,"web-browser"]}}"#), vec!["shell", "web-browser"]);
    assert!(disabled_tools("{}").is_empty());
    let actions = api_key_actions(r#"{"providers":{"a":null,"b":{"api_key":"sk-1"},"c":{"api_key":""},"d":{"base_url":"x"}}}"#);
    assert_eq!(actions.len(), 3);
    assert!(matches!(&actions[0], KeyAction::DeleteSecret { provider } if provider == "a"));
    assert!(matches!(&actions[1], KeyAction::StoreSecret { provider, api_key } if provider == "b" && api_key == "sk-1"));
    assert!(matches!(&actions[2], KeyAction::ClearKey { provider } if provider == "c"));
    assert!(api_key_actions(r#"{"theme":"dark"}"#).is_empty());
}

#[test]
fn computer_use_helper_replies() {
    assert_eq!(helper_reply(r#" {"ok":true,"data":{"apps":[]}} "#), Ok(r#"{"apps":[]}"#.to_string()));
    assert_eq!(helper_reply(r#"{"ok":true}"#), Ok("{}".to_string()));
    assert_eq!(helper_reply(r#"{"ok":false,"message":"no window"}"#), Err("no window".to_string()));
    assert_eq!(helper_reply(r#"{"ok":false}"#), Err("unknown error".to_string()));
    assert_eq!(helper_reply("garbage"), Err("UIA helper returned invalid JSON".to_string()));
}

#[test]
fn memory_request_carries_the_message() {
    let r = ProcessRequest::new("s1", "I prefer tabs", "chat");
    assert_eq!(r.session_id, "s1");
    assert_eq!(r.text, "I prefer tabs");
    assert_eq!(r.context, "chat");
}
