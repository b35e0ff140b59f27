//! Platform-neutral message and session vocabulary shared by all chat bridges.

use vstd::prelude::*;

use crate::text::{str_eq, to_lowercase, lowercase};

verus! {

/// Supported messaging platforms
#[derive(Debug, Clone, Copy, PartialEq, Eq, Hash)]
pub enum Platform {
    Telegram,
    Feishu,
    Wechat,
    QQ,
}

/// The lowercase name of a platform.
pub open spec fn platform_name(p: Platform) -> Seq<char> {
    match p {
        Platform::Telegram => "telegram"@,
        Platform::Feishu => "feishu"@,
        Platform::Wechat => "wechat"@,
        Platform::QQ => "qq"@,
    }
}

/// The platform whose name is exactly `s`.
pub open spec fn platform_named(s: Seq<char>) -> Option<Platform> {
    if s == "telegram"@ {
        Some(Platform::Telegram)
    } else if s == "feishu"@ {
        Some(Platform::Feishu)
    } else if s == "wechat"@ {
        Some(Platform::Wechat)
    } else if s == "qq"@ {
        Some(Platform::QQ)
    } else {
        None
    }
}

impl Platform {
    pub fn name(&self) -> (r: &'static str)
        ensures
            r@ == platform_name(*self),
    {
        match self {
            Platform::Telegram => "telegram",
            Platform::Feishu => "feishu",
            Platform::Wechat => "wechat",
            Platform::QQ => "qq",
        }
    }

    /// The platform's name as an owned string (what `Display` writes).
    pub fn to_string(&self) -> (r: String)
        ensures
            r@ == platform_name(*self),
    {
        String::from_str(self.name())
    }

    /// The platform whose name is `s`, compared exactly.
    pub fn from_lowercase(s: &str) -> (r: Option<Platform>)
        ensures
            r == platform_named(s@),
    {
        if str_eq(s, "telegram") {
            Some(Platform::Telegram)
        } else if str_eq(s, "feishu") {
            Some(Platform::Feishu)
        } else if str_eq(s, "wechat") {
            Some(Platform::Wechat)
        } else if str_eq(s, "qq") {
            Some(Platform::QQ)
        } else {
            None
        }
    }

    /// The platform whose name is `s` in any letter case.
    pub fn from_str(s: &str) -> (r: Option<Platform>)
        ensures
            r == platform_named(lowercase(s@)),
    {
        let lower = to_lowercase(s);
        Platform::from_lowercase(lower.as_str())
    }
}

/// Message content types supported across all platforms
#[derive(Debug, Clone)]
pub enum MessageContent {
    Text(String),
    Image { url: String, caption: Option<String> },
    File { url: String, name: String, size: u64 },
    Audio { url: String, duration_secs: u32 },
}

/// The name of the kind of a content.
pub open spec fn media_type_name(c: MessageContent) -> Seq<char> {
    match c {
        MessageContent::Text(_) => "text"@,
        MessageContent::Image { .. } => "image"@,
        MessageContent::File { .. } => "file"@,
        MessageContent::Audio { .. } => "audio"@,
    }
}

impl MessageContent {
    pub fn media_type(&self) -> (r: &'static str)
        ensures
            r@ == media_type_name(*self),
    {
        match self {
            MessageContent::Text(_) => "text",
            MessageContent::Image { .. } => "image",
            MessageContent::File { .. } => "file",
            MessageContent::Audio { .. } => "audio",
        }
    }

    pub fn text_content(&self) -> (r: Option<&str>)
        ensures
            match self {
                MessageContent::Text(s) => r matches Some(t) && t@ == s@,
                MessageContent::Image { caption, .. } => match caption {
                    Some(c) => r matches Some(t) && t@ == c@,
                    None => r is None,
                },
                _ => r is None,
            },
    {
        match self {
            MessageContent::Text(s) => Some(s.as_str()),
            MessageContent::Image { caption, .. } => match caption {
                Some(c) => Some(c.as_str()),
                None => None,
            },
            _ => None,
        }
    }
}

/// Health status of a platform adapter
#[derive(Debug, Clone, PartialEq, Eq)]
pub enum AdapterHealth {
    Connected,
    Connecting,
    Disconnected,
    Error(String),
}

/// Direction of a bridge message (for DB storage)
#[derive(Debug, Clone, Copy, PartialEq, Eq)]
pub enum MessageDirection {
    Inbound,
    Outbound,
}

pub open spec fn direction_name(d: MessageDirection) -> Seq<char> {
    match d {
        MessageDirection::Inbound => "inbound"@,
        MessageDirection::Outbound => "outbound"@,
    }
}

pub open spec fn direction_named(s: Seq<char>) -> Option<MessageDirection> {
    if s == "inbound"@ {
        Some(MessageDirection::Inbound)
    } else if s == "outbound"@ {
        Some(MessageDirection::Outbound)
    } else {
        None
    }
}

impl MessageDirection {
    pub fn as_str(&self) -> (r: &'static str)
        ensures
            r@ == direction_name(*self),
    {
        match self {
            MessageDirection::Inbound => "inbound",
            MessageDirection::Outbound => "outbound",
        }
    }

    pub fn from_str(s: &str) -> (r: Option<MessageDirection>)
        ensures
            r == direction_named(s@),
    {
        if str_eq(s, "inbound") {
            Some(MessageDirection::Inbound)
        } else if str_eq(s, "outbound") {
            Some(MessageDirection::Outbound)
        } else {
            None
        }
    }
}

/// Access state for a bridge session
#[derive(Debug, Clone, Copy, PartialEq, Eq)]
pub enum AccessState {
    Active,
    Blocked,
    Pending,
}

pub open spec fn access_state_name(a: AccessState) -> Seq<char> {
    match a {
        AccessState::Active => "active"@,
        AccessState::Blocked => "blocked"@,
        AccessState::Pending => "pending"@,
    }
}

pub open spec fn access_state_named(s: Seq<char>) -> Option<AccessState> {
    if s == "active"@ {
        Some(AccessState::Active)
    } else if s == "blocked"@ {
        Some(AccessState::Blocked)
    } else if s == "pending"@ {
        Some(AccessState::Pending)
    } else {
        None
    }
}

impl AccessState {
    pub fn as_str(&self) -> (r: &'static str)
        ensures
            r@ == access_state_name(*self),
    {
        match self {
            AccessState::Active => "active",
            AccessState::Blocked => "blocked",
            AccessState::Pending => "pending",
        }
    }

    pub fn from_str(s: &str) -> (r: Option<AccessState>)
        ensures
            r == access_state_named(s@),
    {
        if str_eq(s, "active") {
            Some(AccessState::Active)
        } else if str_eq(s, "blocked") {
            Some(AccessState::Blocked)
        } else if str_eq(s, "pending") {
            Some(AccessState::Pending)
        } else {
            None
        }
    }
}

/// Access mode for new users
#[derive(Debug, Clone, Copy, PartialEq, Eq)]
pub enum AccessMode {
    Pairing,
    Allowlist,
    Open,
}

impl Default for AccessMode {
    fn default() -> (r: Self)
        ensures
            r == AccessMode::Open,
    {
        AccessMode::Open
    }
}

/// Every platform is found again from its name.
pub proof fn law_platform_name_roundtrip(p: Platform)
    ensures
        platform_named(platform_name(p)) == Some(p),
{
    reveal_strlit("telegram");
    reveal_strlit("feishu");
    reveal_strlit("wechat");
    reveal_strlit("qq");
    assert("feishu"@[0] != "wechat"@[0]);
    assert("telegram"@.len() != "feishu"@.len());
    assert("telegram"@.len() != "wechat"@.len());
    assert("telegram"@.len() != "qq"@.len());
    assert("feishu"@.len() != "qq"@.len());
    assert("wechat"@.len() != "qq"@.len());
}

/// Every direction is found again from its name.
pub proof fn law_direction_roundtrip(d: MessageDirection)
    ensures
        direction_named(direction_name(d)) == Some(d),
{
    reveal_strlit("inbound");
    reveal_strlit("outbound");
    assert("inbound"@.len() != "outbound"@.len());
}

/// Every access state is found again from its name.
pub proof fn law_access_state_roundtrip(a: AccessState)
    ensures
        access_state_named(access_state_name(a)) == Some(a),
{
    reveal_strlit("active");
    reveal_strlit("blocked");
    reveal_strlit("pending");
    assert("active"@.len() != "blocked"@.len());
    assert("active"@.len() != "pending"@.len());
    assert("blocked"@[0] != "pending"@[0]);
}

/// Distinct platforms have distinct names.
pub proof fn law_platform_names_distinct(p: Platform, q: Platform)
    requires
        p != q,
    ensures
        platform_name(p) != platform_name(q),
{
    law_platform_name_roundtrip(p);
    law_platform_name_roundtrip(q);
}

} // verus!
