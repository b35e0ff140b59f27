use openloom::bridge_adapters::{
    FeishuAdapter, QQAdapter, TelegramAdapter, TelegramChat, TelegramMessage, TelegramUpdate, TelegramUser,
    WechatAdapter,
};
use openloom::bridge_types::{AdapterHealth, MessageContent, Platform};

fn text_update(update_id: i64, message_id: i64, text: Option<&str>, caption: Option<&str>) -> TelegramUpdate {
    TelegramUpdate {
        update_id,
        message: Some(TelegramMessage {
            message_id,
            chat: TelegramChat { id: 12345 },
            from: Some(TelegramUser { id: 67890, first_name: "Alice".to_string() }),
            text: text.map(|t| t.to_string()),
            caption: caption.map(|c| c.to_string()),
            reply_to_message_id: None,
        }),
    }
}

#[test]
fn test_api_url() {
    let adapter = TelegramAdapter::new("123456:ABC".to_string());
    assert_eq!(adapter.api_url("getUpdates"), "https://api.telegram.org/bot123456:ABC/getUpdates");
}

#[test]
fn test_update_to_bridge_message_text() {
    let update = TelegramUpdate {
        update_id: 1,
        message: Some(TelegramMessage {
            message_id: 100,
            chat: TelegramChat { id: 12345 },
            from: Some(TelegramUser { id: 67890, first_name: "Alice".to_string() }),
            text: Some("hello bot".to_string()),
            caption: None,
            reply_to_message_id: None,
        }),
    };
    let msg = TelegramAdapter::update_to_bridge_message(&update).unwrap();
    assert_eq!(msg.platform, Platform::Telegram);
    assert_eq!(msg.chat_id, "12345");
    assert_eq!(msg.sender_id, "67890");
    assert_eq!(msg.sender_name, "Alice");
    match &msg.content {
        MessageContent::Text(t) => assert_eq!(t, "hello bot"),
        _ => panic!("expected Text"),
    }
}

#[test]
fn test_update_to_bridge_message_none_for_empty() {
    let update = TelegramUpdate {
        update_id: 1,
        message: Some(TelegramMessage {
            message_id: 100,
            chat: TelegramChat { id: 12345 },
            from: None,
            text: None,
            caption: None,
            reply_to_message_id: None,
        }),
    };
    assert!(TelegramAdapter::update_to_bridge_message(&update).is_none());
}

#[test]
fn telegram_caption_reply_and_anonymous_sender() {
    let update = TelegramUpdate {
        update_id: 7,
        message: Some(TelegramMessage {
            message_id: -5,
            chat: TelegramChat { id: -100200 },
            from: None,
            text: None,
            caption: Some("look".to_string()),
            reply_to_message_id: Some(42),
        }),
    };
    let msg = TelegramAdapter::update_to_bridge_message(&update).unwrap();
    assert_eq!(msg.chat_id, "-100200");
    assert_eq!(msg.sender_id, "unknown");
    assert_eq!(msg.sender_name, "Unknown");
    assert_eq!(msg.reply_to.as_deref(), Some("42"));
    assert_eq!(msg.external_message_id, "-5");
    match &msg.content {
        MessageContent::Image { url, caption } => {
            assert_eq!(url, "");
            assert_eq!(caption.as_deref(), Some("look"));
        }
        _ => panic!("expected Image"),
    }
    assert!(!msg.timestamp.is_empty());
}

#[test]
fn telegram_batch_moves_offset_and_keeps_readable_updates() {
    let updates = vec![
        text_update(10, 1, Some("a"), None),
        TelegramUpdate { update_id: 11, message: None },
        text_update(12, 3, None, Some("pic")),
    ];
    let (msgs, next) = TelegramAdapter::take_updates(&updates, 0);
    assert_eq!(next, 13);
    assert_eq!(msgs.len(), 2);
    assert_eq!(msgs[0].external_message_id, "1");
    assert_eq!(msgs[1].external_message_id, "3");
    let (none, same) = TelegramAdapter::take_updates(&Vec::new(), 99);
    assert!(none.is_empty());
    assert_eq!(same, 99);
}

#[test]
fn telegram_send_requests() {
    let adapter = TelegramAdapter::new("T".to_string());
    let (url, body) = adapter.send_request("5", &MessageContent::Text("say \"hi\"".to_string())).unwrap();
    assert_eq!(url, "https://api.telegram.org/botT/sendMessage");
    assert_eq!(body, r#"{"chat_id":"5","parse_mode":"Markdown","text":"say \"hi\""}"#);
    let (url, body) = adapter
        .send_request("5", &MessageContent::Image { url: "http://x/p.png".to_string(), caption: None })
        .unwrap();
    assert_eq!(url, "https://api.telegram.org/botT/sendPhoto");
    assert_eq!(body, r#"{"caption":"","chat_id":"5","photo":"http://x/p.png"}"#);
    let err = adapter
        .send_request("5", &MessageContent::Audio { url: "a".to_string(), duration_secs: 3 })
        .unwrap_err();
    assert_eq!(err, "unsupported content type for telegram: audio");
    assert_eq!(TelegramAdapter::sent_message_id(r#"{"ok":true,"result":{"message_id":77}}"#), "77");
    assert_eq!(TelegramAdapter::sent_message_id(r#"{"ok":false}"#), "");
}

#[test]
fn telegram_health_follows_lifecycle() {
    let mut adapter = TelegramAdapter::new("fake_token".to_string());
    assert_eq!(adapter.health(), AdapterHealth::Disconnected);
    adapter.begin_connect();
    assert_eq!(adapter.health(), AdapterHealth::Connecting);
    adapter.finish_connect();
    assert_eq!(adapter.health(), AdapterHealth::Connected);
    adapter.finish_disconnect();
    assert_eq!(adapter.health(), AdapterHealth::Disconnected);
}

#[test]
fn test_parse_text_event() {
    let event = r#"{
        "sender": {"sender_id": {"open_id": "ou_123", "union_id": "Alice"}},
        "message": {
            "message_id": "msg_456",
            "chat_id": "oc_789",
            "message_type": "text",
            "content": "{\"text\":\"hello\"}"
        }
    }"#;
    let msg = FeishuAdapter::parse_event(event).unwrap();
    assert_eq!(msg.platform, Platform::Feishu);
    assert_eq!(msg.chat_id, "oc_789");
    assert_eq!(msg.sender_id, "ou_123");
    match msg.content {
        MessageContent::Text(t) => assert_eq!(t, "hello"),
        _ => panic!("expected Text"),
    }
}

#[test]
fn test_parse_image_event() {
    let event = r#"{
        "sender": {"sender_id": {"open_id": "ou_1", "union_id": "Bob"}},
        "message": {
            "message_id": "msg_2",
            "chat_id": "oc_3",
            "message_type": "image",
            "content": "{\"image_key\":\"img_key_123\"}"
        }
    }"#;
    let msg = FeishuAdapter::parse_event(event).unwrap();
    match msg.content {
        MessageContent::Image { url, .. } => assert_eq!(url, "img_key_123"),
        _ => panic!("expected Image"),
    }
}

#[test]
fn test_parse_unsupported_event_returns_none() {
    let event = r#"{
        "sender": {"sender_id": {"open_id": "ou_1"}},
        "message": {
            "message_id": "msg_1",
            "chat_id": "oc_1",
            "message_type": "sticker",
            "content": "{}"
        }
    }"#;
    assert!(FeishuAdapter::parse_event(event).is_none());
}

#[test]
fn feishu_sender_name_defaults_to_unknown() {
    let event = r#"{"sender":{"sender_id":{"open_id":"ou_9"}},
        "message":{"message_id":"m","chat_id":"c","message_type":"text","content":"{\"text\":\"x\"}"}}"#;
    let msg = FeishuAdapter::parse_event(event).unwrap();
    assert_eq!(msg.sender_name, "unknown");
    assert_eq!(msg.external_message_id, "m");
}

#[test]
fn feishu_test_adapter_platform() {
    let adapter = FeishuAdapter::new("id".into(), "secret".into());
    assert_eq!(adapter.platform(), Platform::Feishu);
    assert_eq!(adapter.health(), AdapterHealth::Disconnected);
}

#[test]
fn feishu_token_and_send() {
    let mut adapter = FeishuAdapter::new("id".into(), "se\"cret".into());
    assert_eq!(adapter.token_request_body(), r#"{"app_id":"id","app_secret":"se\"cret"}"#);
    let err = adapter.send_request("oc_1", &MessageContent::Text("hi".into())).unwrap_err();
    assert_eq!(err, "no access token");
    assert_eq!(adapter.accept_token_reply(r#"{"code":1}"#).unwrap_err(), "missing tenant_access_token");
    assert_eq!(adapter.accept_token_reply(r#"{"tenant_access_token":"tok"}"#).unwrap(), "tok");
    let (auth, body) = adapter.send_request("oc_1", &MessageContent::Text("hi".into())).unwrap();
    assert_eq!(auth, "Bearer tok");
    assert_eq!(body, r#"{"content":"{\"text\":\"hi\"}","msg_type":"text","receive_id":"oc_1"}"#);
    let (_, body) = adapter
        .send_request("oc_1", &MessageContent::Image { url: "img_1".into(), caption: Some("c".into()) })
        .unwrap();
    assert_eq!(body, r#"{"content":"{\"image_key\":\"img_1\"}","msg_type":"image","receive_id":"oc_1"}"#);
    let err = adapter
        .send_request("oc_1", &MessageContent::File { url: "f".into(), name: "n".into(), size: 1 })
        .unwrap_err();
    assert_eq!(err, "unsupported content type for feishu");
    assert_eq!(FeishuAdapter::sent_message_id(r#"{"data":{"message_id":"om_5"}}"#), "om_5");
    assert_eq!(FeishuAdapter::sent_message_id("{}"), "");
}

#[test]
fn test_parse_c2c_message() {
    let event = r#"{"data": {"id": "msg_qq_1", "content": "你好机器人", "author": {"user_openid": "openid_123"}}}"#;
    let msg = QQAdapter::parse_c2c_message(event).unwrap();
    assert_eq!(msg.platform, Platform::QQ);
    assert_eq!(msg.sender_id, "openid_123");
    assert_eq!(msg.chat_id, "openid_123");
    match msg.content {
        MessageContent::Text(t) => assert_eq!(t, "你好机器人"),
        _ => panic!("expected Text"),
    }
}

#[test]
fn test_parse_group_message() {
    let event = r#"{"data": {"id": "msg_qq_2", "content": "群里好", "group_openid": "group_456",
        "author": {"member_openid": "member_789"}}}"#;
    let msg = QQAdapter::parse_group_message(event).unwrap();
    assert_eq!(msg.chat_id, "group_456");
    assert_eq!(msg.sender_id, "member_789");
    assert_eq!(msg.sender_name, "QQ User");
}

#[test]
fn test_parse_c2c_missing_fields() {
    let event = r#"{"data": {"content": "hi"}}"#;
    assert!(QQAdapter::parse_c2c_message(event).is_none());
}

#[test]
fn qq_test_adapter_platform() {
    let adapter = QQAdapter::new("id".into(), "token".into());
    assert_eq!(adapter.platform(), Platform::QQ);
    assert_eq!(adapter.health(), AdapterHealth::Disconnected);
}

#[test]
fn qq_token_and_send() {
    let mut adapter = QQAdapter::new("app".into(), "sec".into());
    assert_eq!(adapter.token_request_body(), r#"{"appId":"app","clientSecret":"sec"}"#);
    assert_eq!(adapter.send_request("u1", &MessageContent::Text("x".into())).unwrap_err(), "no access token");
    assert_eq!(adapter.accept_token_reply("{}").unwrap_err(), "missing access_token");
    adapter.accept_token_reply(r#"{"access_token":"qt","expires_in":"7200"}"#).unwrap();
    let (url, auth, body) = adapter.send_request("u1", &MessageContent::Text("你好".into())).unwrap();
    assert_eq!(url, "https://api.sgroup.qq.com/v2/users/u1/messages");
    assert_eq!(auth, "QQBot qt");
    assert_eq!(body, r#"{"content":"你好","msg_type":0}"#);
    let err = adapter
        .send_request("u1", &MessageContent::Image { url: "p".into(), caption: None })
        .unwrap_err();
    assert_eq!(err, "unsupported content type for QQ");
    assert_eq!(QQAdapter::sent_message_id(r#"{"id":"r1"}"#), "r1");
    assert_eq!(QQAdapter::sent_message_id("not json"), "");
}

#[test]
fn test_parse_ilink_message() {
    let msg = r#"{"message_id": "msg_001", "chat_id": "wx_chat_123", "sender_id": "wx_user_456",
        "sender_name": "张三", "content": "你好"}"#;
    let bridge_msg = WechatAdapter::parse_ilink_message(msg).unwrap();
    assert_eq!(bridge_msg.platform, Platform::Wechat);
    assert_eq!(bridge_msg.chat_id, "wx_chat_123");
    assert_eq!(bridge_msg.sender_name, "张三");
    match bridge_msg.content {
        MessageContent::Text(t) => assert_eq!(t, "你好"),
        _ => panic!("expected Text"),
    }
}

#[test]
fn test_parse_ilink_missing_fields() {
    assert!(WechatAdapter::parse_ilink_message(r#"{"content": "hi"}"#).is_none());
}

#[test]
fn wechat_test_adapter_platform() {
    let adapter = WechatAdapter::new("key".into());
    assert_eq!(adapter.platform(), Platform::Wechat);
    assert_eq!(adapter.health(), AdapterHealth::Disconnected);
}

#[test]
fn test_auth_header() {
    let adapter = WechatAdapter::new("my_key_123".into());
    assert_eq!(adapter.auth_header(), "Bearer my_key_123");
}

#[test]
fn wechat_poll_reply_and_send() {
    assert_eq!(WechatAdapter::poll_url(None), "https://api.ilink.ai/api/v1/messages/poll");
    assert_eq!(WechatAdapter::poll_url(Some("m9")), "https://api.ilink.ai/api/v1/messages/poll?since_id=m9");
    let body = r#"{"messages":[
        {"message_id":"m1","chat_id":"c","sender_id":"s","content":"one"},
        {"message_id":"m2","content":"no chat"},
        {"chat_id":"c","sender_id":"s","content":"no id"}
    ]}"#;
    let (msgs, since) = WechatAdapter::take_poll_reply(body, Some("m0".to_string()));
    assert_eq!(msgs.len(), 1);
    assert_eq!(msgs[0].external_message_id, "m1");
    assert_eq!(msgs[0].sender_name, "unknown");
    assert_eq!(since.as_deref(), Some("m2"));
    let (none, kept) = WechatAdapter::take_poll_reply(r#"{"ok":true}"#, Some("m0".to_string()));
    assert!(none.is_empty());
    assert_eq!(kept.as_deref(), Some("m0"));
    let body = WechatAdapter::send_body("c1", &MessageContent::Image { url: "u".into(), caption: Some("cap".into()) }).unwrap();
    assert_eq!(body, r#"{"chat_id":"c1","content":"u cap"}"#);
    let body = WechatAdapter::send_body("c1", &MessageContent::Text("line\nbreak".into())).unwrap();
    assert_eq!(body, r#"{"chat_id":"c1","content":"line\nbreak"}"#);
    assert_eq!(
        WechatAdapter::send_body("c1", &MessageContent::Audio { url: "a".into(), duration_secs: 1 }).unwrap_err(),
        "unsupported content type for wechat"
    );
    assert_eq!(WechatAdapter::sent_message_id(r#"{"message_id":"x1"}"#), "x1");
}
