use openloom::bridge_types::{AccessMode, AccessState, MessageContent, MessageDirection, Platform};

#[test]
fn test_platform_roundtrip() {
    let platforms = [Platform::Telegram, Platform::Feishu, Platform::Wechat, Platform::QQ];
    for p in &platforms {
        let name = p.name();
        let parsed = Platform::from_str(name);
        assert_eq!(parsed, Some(*p), "roundtrip failed for {name}");
    }
}

#[test]
fn test_platform_display() {
    assert_eq!(Platform::Telegram.to_string(), "telegram");
    assert_eq!(Platform::Feishu.to_string(), "feishu");
}

#[test]
fn test_platform_from_str_case_insensitive() {
    assert_eq!(Platform::from_str("TELEGRAM"), Some(Platform::Telegram));
    assert_eq!(Platform::from_str("Feishu"), Some(Platform::Feishu));
    assert_eq!(Platform::from_str("unknown"), None);
}

#[test]
fn test_message_content_media_type() {
    assert_eq!(MessageContent::Text("hi".into()).media_type(), "text");
    let img = MessageContent::Image { url: "u".into(), caption: None };
    assert_eq!(img.media_type(), "image");
}

#[test]
fn test_message_content_text_content() {
    assert_eq!(MessageContent::Text("hello".into()).text_content(), Some("hello"));
    let img = MessageContent::Image { url: "u".into(), caption: Some("pic".into()) };
    assert_eq!(img.text_content(), Some("pic"));
    let file = MessageContent::File { url: "u".into(), name: "f".into(), size: 0 };
    assert_eq!(file.text_content(), None);
}

#[test]
fn test_access_state_roundtrip() {
    let states = [AccessState::Active, AccessState::Blocked, AccessState::Pending];
    for s in &states {
        let name = s.as_str();
        let parsed = AccessState::from_str(name);
        assert_eq!(parsed, Some(*s));
    }
}

#[test]
fn test_direction_roundtrip() {
    assert_eq!(MessageDirection::from_str("inbound"), Some(MessageDirection::Inbound));
    assert_eq!(MessageDirection::from_str("outbound"), Some(MessageDirection::Outbound));
    assert_eq!(MessageDirection::from_str("invalid"), None);
}

#[test]
fn access_mode_defaults_to_open() {
    assert_eq!(AccessMode::default(), AccessMode::Open);
}

#[test]
fn audio_and_file_media_types() {
    let a = MessageContent::Audio { url: "u".into(), duration_secs: 3 };
    assert_eq!(a.media_type(), "audio");
    assert_eq!(a.text_content(), None);
    let f = MessageContent::File { url: "u".into(), name: "n".into(), size: 1 };
    assert_eq!(f.media_type(), "file");
    assert_eq!(MessageDirection::Inbound.as_str(), "inbound");
    assert_eq!(AccessState::Blocked.as_str(), "blocked");
    assert_eq!(Platform::from_str("QQ"), Some(Platform::QQ));
    assert_eq!(Platform::from_lowercase("QQ"), None);
}
