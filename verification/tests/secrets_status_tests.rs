use openloom::bridge_status::{
    bearer_header, checked_platform_status, feishu_test_result, mask_secret, platform_status, qq_test_result,
    required_field, tail_cuttable, telegram_get_me_url, telegram_test_result, test_target, wechat_test_result,
    whatsapp_status, BridgePlatformConfig,
};
use openloom::bridge_types::Platform;
use openloom::secrets::{env_var_name, get_masked};

#[test]
fn env_var_name_uppercases_and_replaces() {
    assert_eq!(env_var_name("openai"), "LOOM_OPENAI_API_KEY");
    assert_eq!(env_var_name("my-provider.v2"), "LOOM_MY_PROVIDER_V2_API_KEY");
}

#[test]
fn masked_key_shows_last_four() {
    assert_eq!(get_masked(Some("sk-1234567890")), Some("*********7890".to_string()));
    assert_eq!(get_masked(Some("abcd")), Some("****".to_string()));
    assert_eq!(get_masked(Some("ab")), Some("**".to_string()));
    assert_eq!(get_masked(None), None);
}

#[test]
fn mask_secret_prefixes_four_stars() {
    assert_eq!(mask_secret("123456789"), "****6789");
    assert_eq!(mask_secret("abc"), "****");
    assert!(tail_cuttable("abcdé"));
    assert!(!tail_cuttable("aébcd"));
}

#[test]
fn status_of_configured_platform() {
    let cfg = BridgePlatformConfig {
        enabled: true,
        credentials: r#"{"token":"bot-token-5678","appId":"app1","appSecret":"secretXYZW"}"#.to_string(),
        owner: None,
    };
    let st = platform_status(Some(&cfg), "agent-7");
    assert!(st.enabled);
    assert!(st.configured);
    assert_eq!(st.status, "disconnected");
    assert_eq!(st.agent_id.as_deref(), Some("agent-7"));
    assert_eq!(st.token.as_deref(), Some("****5678"));
    assert_eq!(st.app_id.as_deref(), Some("app1"));
    assert_eq!(st.app_secret.as_deref(), Some("****XYZW"));
    assert_eq!(st.app_secret_qq.as_deref(), Some("****XYZW"));
    assert_eq!(st.app_id_qq, None);
}

#[test]
fn status_of_unconfigured_platform() {
    let st = platform_status(None, "a");
    assert!(!st.enabled && !st.configured);
    assert!(st.token.is_none() && st.app_secret.is_none());
    let empty = BridgePlatformConfig { enabled: true, credentials: r#"{"token":""}"#.to_string(), owner: None };
    assert!(!platform_status(Some(&empty), "a").configured);
    let w = whatsapp_status("a");
    assert_eq!(w.error.as_deref(), Some("WhatsApp not yet supported"));
}

#[test]
fn checked_status_refuses_split_character() {
    let cfg = BridgePlatformConfig { enabled: true, credentials: r#"{"token":"aébcd"}"#.to_string(), owner: None };
    assert!(checked_platform_status(Some(&cfg), "a").is_none());
    assert!(checked_platform_status(None, "a").is_some());
}

#[test]
fn test_targets_and_required_fields() {
    assert_eq!(test_target("qq"), Ok(Platform::QQ));
    assert_eq!(test_target("whatsapp"), Err("WhatsApp not yet supported".to_string()));
    assert_eq!(test_target("irc"), Err("unknown platform: irc".to_string()));
    assert_eq!(required_field(r#"{"token":"t"}"#, "token"), Ok("t".to_string()));
    assert_eq!(required_field(r#"{}"#, "appId"), Err("appId is required".to_string()));
    assert_eq!(telegram_get_me_url("T"), "https://api.telegram.org/botT/getMe");
    assert_eq!(bearer_header("T"), "Bearer T");
}

#[test]
fn platform_answers_are_read() {
    assert_eq!(
        telegram_test_result(r#"{"ok":true,"result":{"username":"bot","first_name":"Bot"}}"#),
        Ok(("bot".to_string(), "Bot".to_string()))
    );
    assert_eq!(telegram_test_result(r#"{"ok":false}"#), Err("unauthorized".to_string()));
    assert_eq!(telegram_test_result(r#"{"ok":false,"description":"bad"}"#), Err("bad".to_string()));
    assert_eq!(feishu_test_result(r#"{"code":0}"#), Ok(()));
    assert_eq!(feishu_test_result(r#"{"code":1,"msg":"nope"}"#), Err("nope".to_string()));
    assert_eq!(qq_test_result(r#"{"access_token":"x"}"#), Ok(()));
    assert_eq!(qq_test_result(r#"{"error":"denied"}"#), Err("denied".to_string()));
    assert_eq!(wechat_test_result(r#"{"errcode":0,"name":"w"}"#), Ok("w".to_string()));
    assert_eq!(wechat_test_result(r#"{"errcode":3}"#), Err("unauthorized".to_string()));
}
