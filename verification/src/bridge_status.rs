//! The bridge settings an agent shows: each platform's status with its credentials masked, and
//! the reading of the platforms' answers when credentials are tested.

use vstd::prelude::*;

use crate::bridge_types::{platform_named, Platform};
use crate::json::{
    json_bool_field, json_get_bool, json_get_i64, json_get_nested_str, json_get_str, json_i64_field,
    json_nested_str_field, json_object_str_values, json_str_field, json_str_values,
};
use crate::render_text::byte_len;
use crate::secrets::{last_four_bytes, tail4, tail_is_cuttable};
use crate::text::{append_str, str_eq};

verus! {

/// A platform's bridge settings: whether it is on, its credentials as JSON text, its owner.
pub struct BridgePlatformConfig {
    pub enabled: bool,
    pub credentials: String,
    pub owner: Option<String>,
}

/// What the settings show of one platform.
pub struct PlatformStatus {
    pub enabled: bool,
    pub configured: bool,
    pub status: String,
    pub error: Option<String>,
    pub agent_id: Option<String>,
    pub token: Option<String>,
    pub app_id: Option<String>,
    pub app_secret: Option<String>,
    pub app_id_qq: Option<String>,
    pub app_secret_qq: Option<String>,
}

/// A user a bridge has seen.
pub struct KnownUser {
    pub user_id: String,
    pub name: String,
    pub avatar_url: Option<String>,
}

/// The whole bridge status of an agent. `known_users` and `owner` are keyed by platform name.
pub struct BridgeStatus {
    pub telegram: PlatformStatus,
    pub feishu: PlatformStatus,
    pub qq: PlatformStatus,
    pub wechat: PlatformStatus,
    pub whatsapp: PlatformStatus,
    pub read_only: bool,
    pub receipt_enabled: bool,
    pub known_users: Vec<(String, Vec<KnownUser>)>,
    pub owner: Vec<(String, Option<String>)>,
}

/// A secret shown as `****` followed by its last four bytes; just `****` when it has four
/// bytes or fewer.
pub open spec fn mask_secret_spec(value: Seq<char>) -> Seq<char> {
    if byte_len(value) <= 4 {
        "****"@
    } else {
        "****"@ + last_four_bytes(value)
    }
}

/// Whether the last four bytes of `value` can be cut off without splitting a character.
pub fn tail_cuttable(value: &str) -> (b: bool)
    ensures
        b == tail_is_cuttable(value@),
{
    let n = value.len();
    if n <= 4 {
        true
    } else {
        value.is_char_boundary(n - 4)
    }
}

pub fn mask_secret(value: &str) -> (r: String)
    requires
        tail_is_cuttable(value@),
    ensures
        r@ == mask_secret_spec(value@),
{
    proof { reveal_strlit("****"); }
    let n = value.len();
    if n <= 4 {
        return String::from_str("****");
    }
    let mut r = String::from_str("****");
    append_str(&mut r, tail4(value));
    r
}

pub open spec fn mask_opt(o: Option<Seq<char>>) -> Option<Seq<char>> {
    match o {
        Some(s) => Some(mask_secret_spec(s)),
        None => None,
    }
}

pub open spec fn opt_view(o: Option<String>) -> Option<Seq<char>> {
    match o {
        Some(s) => Some(s@),
        None => None,
    }
}

pub open spec fn nonempty(o: Option<Seq<char>>) -> bool {
    match o {
        Some(s) => s.len() > 0,
        None => false,
    }
}

/// Whether some value of the credentials object is a non-empty string.
pub open spec fn has_credentials_spec(credentials: Seq<char>) -> bool {
    match json_object_str_values(credentials) {
        Some(vs) => exists|i: int| 0 <= i < vs.len() && nonempty(#[trigger] vs[i]),
        None => false,
    }
}

fn has_credentials(credentials: &str) -> (b: bool)
    ensures
        b == has_credentials_spec(credentials@),
{
    let vs = match json_str_values(credentials) {
        Some(v) => v,
        None => return false,
    };
    let ghost sv = json_object_str_values(credentials@)->0;
    let mut i: usize = 0;
    while i < vs.len()
        invariant
            i <= vs.len(),
            sv == json_object_str_values(credentials@)->0,
            json_object_str_values(credentials@) is Some,
            sv.len() == vs@.len(),
            forall|j: int| 0 <= j < vs@.len() ==> #[trigger] sv[j] == match vs@[j] {
                Some(s) => Some(s@),
                None => None::<Seq<char>>,
            },
            forall|j: int| 0 <= j < i ==> !nonempty(#[trigger] sv[j]),
        decreases vs.len() - i,
    {
        match &vs[i] {
            Some(s) => {
                if !s.as_str().is_empty() {
                    assert(sv[i as int] == Some(s@));
                    assert(nonempty(sv[i as int]));
                    return true;
                }
                assert(sv[i as int] == Some(s@));
            },
            None => {
                assert(sv[i as int] is None);
            },
        }
        i = i + 1;
    }
    false
}

/// The secrets a status shows (the token and the app secret) can be masked without splitting
/// a character.
pub open spec fn secrets_cuttable(credentials: Seq<char>) -> bool {
    &&& (json_str_field(credentials, "token"@) matches Some(t) ==> tail_is_cuttable(t))
    &&& (json_str_field(credentials, "appSecret"@) matches Some(t) ==> tail_is_cuttable(t))
}

/// The status shown of a platform with the given settings, or of one without settings.
pub open spec fn platform_status_spec(
    config: Option<(bool, Seq<char>)>,
    agent_id: Seq<char>,
    r: PlatformStatus,
) -> bool {
    &&& r.status@ == "disconnected"@
    &&& r.error is None
    &&& opt_view(r.agent_id) == Some(agent_id)
    &&& match config {
        Some((enabled, creds)) => {
            &&& r.enabled == enabled
            &&& r.configured == has_credentials_spec(creds)
            &&& opt_view(r.token) == mask_opt(json_str_field(creds, "token"@))
            &&& opt_view(r.app_id) == json_str_field(creds, "appId"@)
            &&& opt_view(r.app_secret) == mask_opt(json_str_field(creds, "appSecret"@))
            &&& opt_view(r.app_id_qq) == json_str_field(creds, "appID"@)
            &&& opt_view(r.app_secret_qq) == mask_opt(json_str_field(creds, "appSecret"@))
        },
        None => {
            &&& !r.enabled
            &&& !r.configured
            &&& r.token is None && r.app_id is None && r.app_secret is None
            &&& r.app_id_qq is None && r.app_secret_qq is None
        },
    }
}

pub open spec fn config_view(config: Option<&BridgePlatformConfig>) -> Option<(bool, Seq<char>)> {
    match config {
        Some(c) => Some((c.enabled, c.credentials@)),
        None => None,
    }
}

fn masked_field(credentials: &str, key: &str) -> (r: Option<String>)
    requires
        json_str_field(credentials@, key@) matches Some(t) ==> tail_is_cuttable(t),
    ensures
        opt_view(r) == mask_opt(json_str_field(credentials@, key@)),
{
    match json_get_str(credentials, key) {
        Some(s) => Some(mask_secret(s.as_str())),
        None => None,
    }
}

/// The status shown of a platform: its switch, whether any credential is filled in, and the
/// credentials with the token and the app secret masked.
pub fn platform_status(config: Option<&BridgePlatformConfig>, agent_id: &str) -> (r: PlatformStatus)
    requires
        config matches Some(c) ==> secrets_cuttable(c.credentials@),
    ensures
        platform_status_spec(config_view(config), agent_id@, r),
{
    proof {
        reveal_strlit("disconnected");
        reveal_strlit("token");
        reveal_strlit("appSecret");
    }
    match config {
        Some(cfg) => {
            let creds = cfg.credentials.as_str();
            let configured = has_credentials(creds);
            let app_id = json_get_str(creds, "appId");
            let app_id_qq = json_get_str(creds, "appID");
            PlatformStatus {
                enabled: cfg.enabled,
                configured: configured,
                status: String::from_str("disconnected"),
                error: None,
                agent_id: Some(String::from_str(agent_id)),
                token: masked_field(creds, "token"),
                app_id: app_id,
                app_secret: masked_field(creds, "appSecret"),
                app_id_qq: app_id_qq,
                app_secret_qq: masked_field(creds, "appSecret"),
            }
        },
        None => PlatformStatus {
            enabled: false,
            configured: false,
            status: String::from_str("disconnected"),
            error: None,
            agent_id: Some(String::from_str(agent_id)),
            token: None,
            app_id: None,
            app_secret: None,
            app_id_qq: None,
            app_secret_qq: None,
        },
    }
}

/// `platform_status`, or none when a secret of the settings cannot be masked without splitting
/// a character.
pub fn checked_platform_status(config: Option<&BridgePlatformConfig>, agent_id: &str) -> (r: Option<PlatformStatus>)
    ensures
        (config matches Some(c) && !secrets_cuttable(c.credentials@)) <==> r is None,
        r matches Some(st) ==> platform_status_spec(config_view(config), agent_id@, st),
{
    match config {
        Some(cfg) => {
            let creds = cfg.credentials.as_str();
            proof { reveal_strlit("token"); reveal_strlit("appSecret"); }
            let token_ok = match json_get_str(creds, "token") {
                Some(t) => tail_cuttable(t.as_str()),
                None => true,
            };
            let secret_ok = match json_get_str(creds, "appSecret") {
                Some(t) => tail_cuttable(t.as_str()),
                None => true,
            };
            if !(token_ok && secret_ok) {
                return None;
            }
        },
        None => {},
    }
    Some(platform_status(config, agent_id))
}

/// The status shown of WhatsApp, which bridges do not support yet.
pub fn whatsapp_status(agent_id: &str) -> (r: PlatformStatus)
    ensures
        !r.enabled && !r.configured,
        r.status@ == "disconnected"@,
        opt_view(r.error) == Some("WhatsApp not yet supported"@),
        opt_view(r.agent_id) == Some(agent_id@),
        r.token is None && r.app_id is None && r.app_secret is None,
        r.app_id_qq is None && r.app_secret_qq is None,
{
    proof { reveal_strlit("disconnected"); }
    PlatformStatus {
        enabled: false,
        configured: false,
        status: String::from_str("disconnected"),
        error: Some(String::from_str("WhatsApp not yet supported")),
        agent_id: Some(String::from_str(agent_id)),
        token: None,
        app_id: None,
        app_secret: None,
        app_id_qq: None,
        app_secret_qq: None,
    }
}

// ── testing credentials ──

/// Which platform a credentials test goes to, or why there is none.
pub open spec fn test_target_spec(platform: Seq<char>) -> Result<Platform, Seq<char>> {
    match platform_named(platform) {
        Some(p) => Ok(p),
        None => if platform == "whatsapp"@ {
            Err("WhatsApp not yet supported"@)
        } else {
            Err("unknown platform: "@ + platform)
        },
    }
}

pub fn test_target(platform: &str) -> (r: Result<Platform, String>)
    ensures
        match r {
            Ok(p) => test_target_spec(platform@) == Ok::<Platform, Seq<char>>(p),
            Err(e) => test_target_spec(platform@) == Err::<Platform, Seq<char>>(e@),
        },
{
    match Platform::from_lowercase(platform) {
        Some(p) => Ok(p),
        None => {
            if str_eq(platform, "whatsapp") {
                Err(String::from_str("WhatsApp not yet supported"))
            } else {
                let mut e = String::from_str("unknown platform: ");
                append_str(&mut e, platform);
                Err(e)
            }
        },
    }
}

/// The credential under `key`, or the complaint that it is missing.
pub open spec fn required_field_spec(credentials: Seq<char>, key: Seq<char>) -> Result<Seq<char>, Seq<char>> {
    match json_str_field(credentials, key) {
        Some(v) => Ok(v),
        None => Err(key + " is required"@),
    }
}

pub fn required_field(credentials: &str, key: &str) -> (r: Result<String, String>)
    ensures
        match r {
            Ok(v) => required_field_spec(credentials@, key@) == Ok::<Seq<char>, Seq<char>>(v@),
            Err(e) => required_field_spec(credentials@, key@) == Err::<Seq<char>, Seq<char>>(e@),
        },
{
    match json_get_str(credentials, key) {
        Some(v) => Ok(v),
        None => {
            let mut e = String::from_str(key);
            append_str(&mut e, " is required");
            Err(e)
        },
    }
}

/// The Telegram `getMe` address for a bot token.
pub fn telegram_get_me_url(token: &str) -> (r: String)
    ensures
        r@ == "https://api.telegram.org/bot"@ + token@ + "/getMe"@,
{
    let mut r = String::from_str("https://api.telegram.org/bot");
    append_str(&mut r, token);
    append_str(&mut r, "/getMe");
    r
}

/// The `Authorization` header value for a WeChat bot token.
pub fn bearer_header(token: &str) -> (r: String)
    ensures
        r@ == "Bearer "@ + token@,
{
    let mut r = String::from_str("Bearer ");
    append_str(&mut r, token);
    r
}

pub open spec fn str_or(o: Option<Seq<char>>, d: Seq<char>) -> Seq<char> {
    match o {
        Some(s) => s,
        None => d,
    }
}

fn get_str_or(text: &str, key: &str, default: &str) -> (r: String)
    ensures
        r@ == str_or(json_str_field(text@, key@), default@),
{
    match json_get_str(text, key) {
        Some(s) => s,
        None => String::from_str(default),
    }
}

/// Telegram's answer to `getMe`: the bot's username and first name when `ok` is true, else the
/// description (or `unauthorized`).
pub open spec fn telegram_result_spec(body: Seq<char>) -> Result<(Seq<char>, Seq<char>), Seq<char>> {
    if json_bool_field(body, "ok"@) == Some(true) {
        Ok((
            str_or(json_nested_str_field(body, "result"@, "username"@), ""@),
            str_or(json_nested_str_field(body, "result"@, "first_name"@), ""@),
        ))
    } else {
        Err(str_or(json_str_field(body, "description"@), "unauthorized"@))
    }
}

pub fn telegram_test_result(body: &str) -> (r: Result<(String, String), String>)
    ensures
        match r {
            Ok((u, f)) => telegram_result_spec(body@) == Ok::<(Seq<char>, Seq<char>), Seq<char>>((u@, f@)),
            Err(e) => telegram_result_spec(body@) == Err::<(Seq<char>, Seq<char>), Seq<char>>(e@),
        },
{
    let ok = json_get_bool(body, "ok");
    proof { reveal_strlit(""); }
    if matches!(ok, Some(true)) {
        assert(json_bool_field(body@, "ok"@) == Some(true));
        let username = match json_get_nested_str(body, "result", "username") {
            Some(s) => s,
            None => String::new(),
        };
        let first = match json_get_nested_str(body, "result", "first_name") {
            Some(s) => s,
            None => String::new(),
        };
        assert(username@ == str_or(json_nested_str_field(body@, "result"@, "username"@), ""@));
        assert(first@ == str_or(json_nested_str_field(body@, "result"@, "first_name"@), ""@));
        Ok((username, first))
    } else {
        Err(get_str_or(body, "description", "unauthorized"))
    }
}

/// An answer whose integer `code_key` is zero is a success; otherwise the failure is the
/// string under `message_key` (or `unauthorized`).
pub open spec fn coded_result_spec(body: Seq<char>, code_key: Seq<char>, message_key: Seq<char>) -> Result<(), Seq<char>> {
    if json_i64_field(body, code_key) == Some(0i64) {
        Ok(())
    } else {
        Err(str_or(json_str_field(body, message_key), "unauthorized"@))
    }
}

/// Feishu's answer to a tenant token request: success when `code` is 0, else `msg`.
pub fn feishu_test_result(body: &str) -> (r: Result<(), String>)
    ensures
        match r {
            Ok(()) => coded_result_spec(body@, "code"@, "msg"@) is Ok,
            Err(e) => coded_result_spec(body@, "code"@, "msg"@) == Err::<(), Seq<char>>(e@),
        },
{
    if json_get_i64(body, "code") == Some(0i64) {
        Ok(())
    } else {
        Err(get_str_or(body, "msg", "unauthorized"))
    }
}

/// QQ's answer to an access token request: success when it holds an `access_token` string,
/// else the `error` string (or `unauthorized`).
pub open spec fn qq_result_spec(body: Seq<char>) -> Result<(), Seq<char>> {
    if json_str_field(body, "access_token"@) is Some {
        Ok(())
    } else {
        Err(str_or(json_str_field(body, "error"@), "unauthorized"@))
    }
}

pub fn qq_test_result(body: &str) -> (r: Result<(), String>)
    ensures
        match r {
            Ok(()) => qq_result_spec(body@) is Ok,
            Err(e) => qq_result_spec(body@) == Err::<(), Seq<char>>(e@),
        },
{
    if json_get_str(body, "access_token").is_some() {
        Ok(())
    } else {
        Err(get_str_or(body, "error", "unauthorized"))
    }
}

/// WeChat's answer to `getconfig`: the bot's name (or empty) when `errcode` is 0, else
/// `errmsg` (or `unauthorized`).
pub open spec fn wechat_result_spec(body: Seq<char>) -> Result<Seq<char>, Seq<char>> {
    if json_i64_field(body, "errcode"@) == Some(0i64) {
        Ok(str_or(json_str_field(body, "name"@), ""@))
    } else {
        Err(str_or(json_str_field(body, "errmsg"@), "unauthorized"@))
    }
}

pub fn wechat_test_result(body: &str) -> (r: Result<String, String>)
    ensures
        match r {
            Ok(n) => wechat_result_spec(body@) == Ok::<Seq<char>, Seq<char>>(n@),
            Err(e) => wechat_result_spec(body@) == Err::<Seq<char>, Seq<char>>(e@),
        },
{
    if json_get_i64(body, "errcode") == Some(0i64) {
        Ok(get_str_or(body, "name", ""))
    } else {
        Err(get_str_or(body, "errmsg", "unauthorized"))
    }
}

} // verus!
