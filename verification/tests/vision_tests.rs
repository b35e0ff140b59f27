use openloom::engine::Backend;
use openloom::vision::{extract_fenced_json, extract_json_object, format_fallback_vision_note, format_vision_note};
use openloom::vision::{
    image_note, resolve_vision_model_config, should_use_auxiliary_vision, vision_context, vision_prompt, ImagePart,
};

fn parse(s: &str) -> serde_json::Value {
    serde_json::from_str::<serde_json::Value>(s).unwrap()
}

#[test]
fn test_extract_clean_json() {
    let json = r#"{"image_overview": "A cat", "visible_text": "none"}"#;
    let result = extract_json_object(json);
    assert!(result.is_some());
    let val = parse(&result.unwrap());
    assert_eq!(val["image_overview"], "A cat");
}

#[test]
fn test_extract_fenced_json() {
    let text = "Here is my analysis:\n```json\n{\"image_overview\": \"A dog\"}\n```\nHope this helps!";
    let result = extract_json_object(text);
    assert!(result.is_some());
    let val = parse(&result.unwrap());
    assert_eq!(val["image_overview"], "A dog");
}

#[test]
fn test_extract_partial_json() {
    let text = "Prefix text {\"key\": \"value\"} suffix text";
    let result = extract_json_object(text);
    assert!(result.is_some());
    let val = parse(&result.unwrap());
    assert_eq!(val["key"], "value");
}

#[test]
fn test_extract_invalid_returns_none() {
    assert!(extract_json_object("just plain text").is_none());
    assert!(extract_json_object("").is_none());
}

#[test]
fn test_extract_array_returns_none() {
    assert!(extract_json_object("[1, 2, 3]").is_none());
}

#[test]
fn fenced_block_without_tag_is_found() {
    assert_eq!(extract_fenced_json("```\n {\"a\": 1} \n```").as_deref(), Some("{\"a\": 1}"));
}

#[test]
fn fenced_block_that_is_empty_gives_nothing() {
    assert_eq!(extract_fenced_json("```json\n   \n```"), None);
    assert_eq!(extract_fenced_json("```json {\"a\": 1}"), None);
    assert_eq!(extract_fenced_json("no fence at all"), None);
}

#[test]
fn braces_in_wrong_order_give_nothing() {
    assert!(extract_json_object("} before {").is_none());
}

#[test]
fn test_format_vision_note_includes_all_fields() {
    let analysis = r#"{
        "image_overview": "A sunset photo",
        "visible_text": "none",
        "objects_and_layout": "Sun centered, ocean below",
        "charts_or_data": "none",
        "user_request": "What is this?",
        "user_request_answer": "A sunset over the ocean",
        "evidence": "Orange sky, water reflection",
        "uncertainty": "none"
    }"#;
    let note = format_vision_note(1, analysis);
    assert!(note.contains("image_1:"));
    assert!(note.contains("A sunset photo"));
    assert!(note.contains("A sunset over the ocean"));
}

#[test]
fn test_format_vision_note_empty_fields_default_to_none() {
    let analysis = r#"{"image_overview": "", "visible_text": null}"#;
    let note = format_vision_note(1, analysis);
    assert!(note.contains("image_overview: none"));
    assert!(note.contains("visible_text: none"));
}

#[test]
fn vision_note_has_exact_layout() {
    let note = format_vision_note(3, r#"{"image_overview": "x", "uncertainty": "y"}"#);
    assert_eq!(
        note,
        "image_3:\n  image_overview: x\n  visible_text: none\n  objects_and_layout: none\n  \
         charts_or_data: none\n  user_request: none\n  user_request_answer: none\n  \
         evidence: none\n  uncertainty: y"
    );
}

#[test]
fn test_format_fallback_vision_note() {
    let note = format_fallback_vision_note(2, "some raw model output");
    assert!(note.contains("image_2:"));
    assert!(note.contains("[structured analysis unavailable"));
    assert!(note.contains("raw model output"));
}

#[test]
fn fallback_note_truncates_after_800_chars() {
    let raw: String = std::iter::repeat('é').take(801).collect();
    let note = format_fallback_vision_note(1, &raw);
    let expected_excerpt: String = std::iter::repeat('é').take(800).collect();
    assert!(note.ends_with(&format!("raw_excerpt: {}...[truncated]", expected_excerpt)));
    let short = format_fallback_vision_note(1, "abc");
    assert_eq!(
        short,
        "image_1:\n  [structured analysis unavailable \u{2014} raw response excerpt]\n  raw_excerpt: abc"
    );
}

fn enabled_vision_settings() -> String {
    r#"{"models":{"models":{"vision_enabled":true,"vision":{"id":"gpt-4o","provider":"openai"}}}}"#.to_string()
}

fn test_image() -> ImagePart {
    ImagePart { data: "iVBORw0KGgo=".into(), mime_type: "image/png".into() }
}

#[test]
fn test_no_images_returns_false() {
    let settings = "{}";
    assert!(!should_use_auxiliary_vision(settings, Backend::LmStudio, &[]));
}

#[test]
fn test_cloud_backend_returns_false() {
    let settings = enabled_vision_settings();
    let images = vec![test_image()];
    for backend in &[Backend::Anthropic, Backend::OpenAI, Backend::DeepSeek] {
        assert!(
            !should_use_auxiliary_vision(&settings, *backend, &images),
            "cloud backend {backend:?} should not use auxiliary vision"
        );
    }
}

#[test]
fn test_local_backend_with_vision_enabled_returns_true() {
    let settings = enabled_vision_settings();
    let images = vec![test_image()];
    assert!(should_use_auxiliary_vision(&settings, Backend::LmStudio, &images));
}

#[test]
fn test_vision_disabled_returns_false() {
    let settings = r#"{"models":{"models":{"vision_enabled":false,"vision":{"id":"gpt-4o","provider":"openai"}}}}"#;
    let images = vec![test_image()];
    assert!(!should_use_auxiliary_vision(settings, Backend::LmStudio, &images));
}

#[test]
fn test_no_vision_model_configured_returns_false() {
    let settings = r#"{"models":{"models":{"vision_enabled":true}}}"#;
    let images = vec![test_image()];
    assert!(!should_use_auxiliary_vision(settings, Backend::LmStudio, &images));
}

#[test]
fn ollama_counts_as_local_for_vision() {
    let settings = enabled_vision_settings();
    assert!(should_use_auxiliary_vision(&settings, Backend::Ollama, &[test_image()]));
    let no_provider = r#"{"models":{"models":{"vision_enabled":true,"vision":{"id":"gpt-4o","provider":""}}}}"#;
    assert!(!should_use_auxiliary_vision(no_provider, Backend::Ollama, &[test_image()]));
}

#[test]
fn vision_model_found_among_providers() {
    let settings = r#"{"models":{"models":{"vision":{"id":"gpt-4o"}}},
        "providers":{"openai":{"api_key_env":"OPENAI_API_KEY","models":[{"id":"gpt-4o"}]}}}"#;
    let m = resolve_vision_model_config(settings).unwrap();
    assert_eq!(m.name, "openai");
    assert_eq!(m.model, "gpt-4o");
    assert_eq!(m.backend, Backend::OpenAI);
    assert_eq!(m.api_key_env.as_deref(), Some("OPENAI_API_KEY"));
    assert!(resolve_vision_model_config(r#"{"models":{"models":{"vision":{"id":""}}}}"#).is_none());
    assert!(resolve_vision_model_config("{}").is_none());
}

#[test]
fn vision_prompt_carries_the_request() {
    let p = vision_prompt("what is in the box?");
    assert!(p.starts_with("Analyze this image for another text-only model."));
    assert!(p.ends_with("User request:\nwhat is in the box?"));
    assert!(!p.contains("{prompt}"));
}

#[test]
fn notes_and_context() {
    let ok = image_note(1, &Ok(r#"{"image_overview":"a cat"}"#.to_string()));
    assert!(ok.starts_with("image_1:\n  image_overview: a cat\n  visible_text: none"));
    let raw = image_note(2, &Ok("just words".to_string()));
    assert!(raw.starts_with("image_2:\n  [structured analysis unavailable"));
    assert!(raw.ends_with("raw_excerpt: just words"));
    let failed = image_note(3, &Err("timeout".to_string()));
    assert_eq!(failed, "image_3: [analysis unavailable: timeout]");
    assert_eq!(vision_context(&vec![]), None);
    assert_eq!(
        vision_context(&vec!["a".to_string(), "b".to_string()]),
        Some("<vision-context>\na\n\nb\n</vision-context>".to_string())
    );
}
