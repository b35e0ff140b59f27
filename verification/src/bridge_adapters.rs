//! The platform adapters: their credentials and health, the reading of each platform's
//! messages into bridge messages (Telegram updates, Feishu events, QQ private and group
//! messages, WeChat iLink messages), and the requests that send replies. The caller does the
//! network work and hands the replies back.

use vstd::prelude::*;

use crate::bridge_router::BridgeMessage;
use crate::bridge_types::{media_type_name, AdapterHealth, MessageContent, Platform};
use crate::clock::now_rfc3339;
use crate::json::{
    json_array_items, json_get_array_items, json_get_pointer_i64, json_get_pointer_str, json_get_str, json_pointer_i64,
    json_pointer_str, json_quote, json_quoted, json_str_field,
};
use crate::render_text::lemma_filter_step;
use crate::text::{append_str, signed_decimal, signed_decimal_string, str_eq};

verus! {

// ── Shared ──

/// The health an adapter reports, copied.
fn copy_health(h: &AdapterHealth) -> (r: AdapterHealth)
    ensures
        r == *h,
{
    match h {
        AdapterHealth::Connected => AdapterHealth::Connected,
        AdapterHealth::Connecting => AdapterHealth::Connecting,
        AdapterHealth::Disconnected => AdapterHealth::Disconnected,
        AdapterHealth::Error(e) => AdapterHealth::Error(e.clone()),
    }
}

pub open spec fn content_is_text(c: MessageContent, t: Seq<char>) -> bool {
    c matches MessageContent::Text(x) && x@ == t
}

pub open spec fn str_or(o: Option<Seq<char>>, d: Seq<char>) -> Seq<char> {
    match o {
        Some(s) => s,
        None => d,
    }
}

pub open spec fn opt_chars(o: Option<String>) -> Option<Seq<char>> {
    match o {
        Some(s) => Some(s@),
        None => None,
    }
}

// ── Telegram ──

pub struct TelegramChat {
    pub id: i64,
}

pub struct TelegramUser {
    pub id: i64,
    pub first_name: String,
}

/// A message of a Telegram update; only the id of the message replied to is kept.
pub struct TelegramMessage {
    pub message_id: i64,
    pub chat: TelegramChat,
    pub from: Option<TelegramUser>,
    pub text: Option<String>,
    pub caption: Option<String>,
    pub reply_to_message_id: Option<i64>,
}

pub struct TelegramUpdate {
    pub update_id: i64,
    pub message: Option<TelegramMessage>,
}

/// The Telegram adapter's bot token and health.
pub struct TelegramAdapter {
    bot_token: String,
    health: AdapterHealth,
}

/// The address of a Telegram bot API method.
pub open spec fn telegram_api_url(token: Seq<char>, method: Seq<char>) -> Seq<char> {
    "https://api.telegram.org/bot"@ + token + "/"@ + method
}

/// Whether an update carries something to hand over: a message with a text or a caption.
pub open spec fn readable_update(u: TelegramUpdate) -> bool {
    u.message matches Some(m) && (m.text is Some || m.caption is Some)
}

/// The readable updates of a batch, in order.
pub open spec fn readable_updates(s: Seq<TelegramUpdate>) -> Seq<TelegramUpdate> {
    s.filter(|u: TelegramUpdate| readable_update(u))
}

/// What the bridge message read from a Telegram update is: the chat, the sender
/// (`unknown`/`Unknown` when the update names none) and the text, or the caption of a
/// picture; none for an update without a message, or whose message has neither.
pub open spec fn telegram_reading(update: TelegramUpdate, r: Option<BridgeMessage>) -> bool {
    match update.message {
        None => r is None,
        Some(m) => if m.text is None && m.caption is None {
            r is None
        } else {
            r matches Some(b) && {
                &&& b.platform == Platform::Telegram
                &&& b.chat_id@ == signed_decimal(m.chat.id as int)
                &&& match m.from {
                    Some(u) => b.sender_id@ == signed_decimal(u.id as int) && b.sender_name == u.first_name,
                    None => b.sender_id@ == "unknown"@ && b.sender_name@ == "Unknown"@,
                }
                &&& match m.text {
                    Some(t) => content_is_text(b.content, t@),
                    None => b.content matches MessageContent::Image { url, caption } && url@.len() == 0
                        && caption == m.caption,
                }
                &&& match m.reply_to_message_id {
                    Some(id) => b.reply_to matches Some(x) && x@ == signed_decimal(id as int),
                    None => b.reply_to is None,
                }
                &&& b.external_message_id@ == signed_decimal(m.message_id as int)
            }
        },
    }
}

/// The text of an optional string, empty when there is none.
pub open spec fn text_or_empty(o: Option<String>) -> Seq<char> {
    match o {
        Some(s) => s@,
        None => Seq::empty(),
    }
}

/// The request that sends a content to a Telegram chat: the method's address and the JSON
/// body (keys in sorted order, as `serde_json` writes them); texts go as Markdown messages,
/// pictures as photos with their caption (empty when none). Other contents are refused.
pub open spec fn telegram_send_spec(token: Seq<char>, chat_id: Seq<char>, content: MessageContent) -> Result<(Seq<char>, Seq<char>), Seq<char>> {
    match content {
        MessageContent::Text(t) => Ok((
            telegram_api_url(token, "sendMessage"@),
            "{\"chat_id\":"@ + json_quoted(chat_id) + ",\"parse_mode\":\"Markdown\",\"text\":"@ + json_quoted(t@) + "}"@,
        )),
        MessageContent::Image { url, caption } => Ok((
            telegram_api_url(token, "sendPhoto"@),
            "{\"caption\":"@ + json_quoted(text_or_empty(caption)) + ",\"chat_id\":"@ + json_quoted(chat_id) + ",\"photo\":"@
                + json_quoted(url@) + "}"@,
        )),
        _ => Err("unsupported content type for telegram: "@ + media_type_name(content)),
    }
}

impl TelegramAdapter {
    pub closed spec fn token(&self) -> Seq<char> {
        self.bot_token@
    }

    pub closed spec fn health_state(&self) -> AdapterHealth {
        self.health
    }

    pub fn new(bot_token: String) -> (a: Self)
        ensures
            a.token() == bot_token@,
            a.health_state() == AdapterHealth::Disconnected,
    {
        TelegramAdapter { bot_token, health: AdapterHealth::Disconnected }
    }

    pub fn platform(&self) -> (p: Platform)
        ensures
            p == Platform::Telegram,
    {
        Platform::Telegram
    }

    pub fn health(&self) -> (h: AdapterHealth)
        ensures
            h == self.health_state(),
    {
        copy_health(&self.health)
    }

    /// Polling has begun.
    pub fn begin_connect(&mut self)
        ensures
            final(self).health_state() == AdapterHealth::Connecting,
            final(self).token() == old(self).token(),
    {
        self.health = AdapterHealth::Connecting;
    }

    /// Polling runs.
    pub fn finish_connect(&mut self)
        ensures
            final(self).health_state() == AdapterHealth::Connected,
            final(self).token() == old(self).token(),
    {
        self.health = AdapterHealth::Connected;
    }

    /// Polling has stopped.
    pub fn finish_disconnect(&mut self)
        ensures
            final(self).health_state() == AdapterHealth::Disconnected,
            final(self).token() == old(self).token(),
    {
        self.health = AdapterHealth::Disconnected;
    }

    /// The address of a bot API method with this adapter's token.
    pub fn api_url(&self, method: &str) -> (r: String)
        ensures
            r@ == telegram_api_url(self.token(), method@),
    {
        let mut r = String::from_str("https://api.telegram.org/bot");
        append_str(&mut r, self.bot_token.as_str());
        append_str(&mut r, "/");
        append_str(&mut r, method);
        r
    }

    /// The bridge message of a Telegram update; see `telegram_reading`. The time is the time of
    /// reading.
    pub fn update_to_bridge_message(update: &TelegramUpdate) -> (r: Option<BridgeMessage>)
        ensures
            telegram_reading(*update, r),
    {
        let msg = match &update.message {
            Some(m) => m,
            None => return None,
        };
        let content = match &msg.text {
            Some(t) => MessageContent::Text(t.clone()),
            None => match &msg.caption {
                Some(c) => MessageContent::Image { url: String::new(), caption: Some(c.clone()) },
                None => return None,
            },
        };
        let (sender_id, sender_name) = match &msg.from {
            Some(u) => (signed_decimal_string(u.id), u.first_name.clone()),
            None => (String::from_str("unknown"), String::from_str("Unknown")),
        };
        let reply_to = match msg.reply_to_message_id {
            Some(id) => Some(signed_decimal_string(id)),
            None => None,
        };
        Some(BridgeMessage {
            platform: Platform::Telegram,
            chat_id: signed_decimal_string(msg.chat.id),
            sender_id,
            sender_name,
            content,
            reply_to,
            external_message_id: signed_decimal_string(msg.message_id),
            timestamp: now_rfc3339(),
        })
    }

    /// One batch of polled updates: the bridge messages of the readable ones, in order, and the
    /// offset of the next poll (one past the last update's id; unchanged for an empty batch).
    pub fn take_updates(updates: &Vec<TelegramUpdate>, offset: i64) -> (r: (Vec<BridgeMessage>, i64))
        requires
            forall|i: int| 0 <= i < updates@.len() ==> #[trigger] updates@[i].update_id < i64::MAX,
        ensures
            r.1 == if updates@.len() == 0 { offset as int } else { updates@.last().update_id + 1 },
            r.0@.len() == readable_updates(updates@).len(),
            forall|k: int| 0 <= k < r.0@.len() ==> telegram_reading(#[trigger] readable_updates(updates@)[k], Some(r.0@[k])),
    {
        let ghost f = |u: TelegramUpdate| readable_update(u);
        let mut msgs: Vec<BridgeMessage> = Vec::new();
        let mut next = offset;
        let n = updates.len();
        let mut i: usize = 0;
        while i < n
            invariant
                n == updates@.len(),
                0 <= i <= n,
                f == (|u: TelegramUpdate| readable_update(u)),
                forall|j: int| 0 <= j < updates@.len() ==> #[trigger] updates@[j].update_id < i64::MAX,
                next == if i == 0 { offset as int } else { updates@[i - 1].update_id + 1 },
                msgs@.len() == updates@.take(i as int).filter(f).len(),
                forall|k: int| 0 <= k < msgs@.len() ==> telegram_reading(
                    #[trigger] updates@.take(i as int).filter(f)[k],
                    Some(msgs@[k]),
                ),
            decreases n - i,
        {
            let u = &updates[i];
            next = u.update_id + 1;
            proof {
                lemma_filter_step(updates@, i as int, f);
            }
            match TelegramAdapter::update_to_bridge_message(u) {
                Some(m) => {
                    msgs.push(m);
                },
                None => {},
            }
            i = i + 1;
        }
        proof {
            assert(updates@.take(n as int) =~= updates@);
        }
        (msgs, next)
    }

    /// The request that sends a content to a chat; see `telegram_send_spec`.
    pub fn send_request(&self, chat_id: &str, content: &MessageContent) -> (r: Result<(String, String), String>)
        ensures
            match r {
                Ok((url, body)) => telegram_send_spec(self.token(), chat_id@, *content) == Ok::<(Seq<char>, Seq<char>), Seq<char>>((url@, body@)),
                Err(e) => telegram_send_spec(self.token(), chat_id@, *content) == Err::<(Seq<char>, Seq<char>), Seq<char>>(e@),
            },
    {
        match content {
            MessageContent::Text(t) => {
                let url = self.api_url("sendMessage");
                let mut body = String::from_str("{\"chat_id\":");
                append_str(&mut body, json_quote(chat_id).as_str());
                append_str(&mut body, ",\"parse_mode\":\"Markdown\",\"text\":");
                append_str(&mut body, json_quote(t.as_str()).as_str());
                append_str(&mut body, "}");
                Ok((url, body))
            },
            MessageContent::Image { url: photo, caption } => {
                let url = self.api_url("sendPhoto");
                let cap = match caption {
                    Some(c) => c.clone(),
                    None => String::new(),
                };
                let mut body = String::from_str("{\"caption\":");
                append_str(&mut body, json_quote(cap.as_str()).as_str());
                append_str(&mut body, ",\"chat_id\":");
                append_str(&mut body, json_quote(chat_id).as_str());
                append_str(&mut body, ",\"photo\":");
                append_str(&mut body, json_quote(photo.as_str()).as_str());
                append_str(&mut body, "}");
                Ok((url, body))
            },
            _ => {
                let mut e = String::from_str("unsupported content type for telegram: ");
                append_str(&mut e, content.media_type());
                Err(e)
            },
        }
    }

    /// The id of the message that a send reply reports (`result.message_id`), empty when it
    /// reports none.
    pub fn sent_message_id(reply: &str) -> (r: String)
        ensures
            r@ == match json_pointer_i64(reply@, "/result/message_id"@) {
                Some(n) => signed_decimal(n as int),
                None => Seq::empty(),
            },
    {
        match json_get_pointer_i64(reply, "/result/message_id") {
            Some(n) => signed_decimal_string(n),
            None => String::new(),
        }
    }
}

// ── Feishu ──

/// What a Feishu event holds of a message, if it holds all of it: chat, sender, sender name
/// (`unknown` when missing), content and message id. Text messages and pictures are read;
/// other kinds are not.
pub open spec fn feishu_event_spec(event: Seq<char>, r: Option<BridgeMessage>) -> bool {
    let chat = json_pointer_str(event, "/message/chat_id"@);
    let sender = json_pointer_str(event, "/sender/sender_id/open_id"@);
    let kind = json_pointer_str(event, "/message/message_type"@);
    let content = json_pointer_str(event, "/message/content"@);
    let id = json_pointer_str(event, "/message/message_id"@);
    let name = str_or(json_pointer_str(event, "/sender/sender_id/union_id"@), "unknown"@);
    if chat is None || sender is None || kind is None || content is None || id is None {
        r is None
    } else {
        let c = content->0;
        let inner = if kind->0 == "text"@ {
            json_str_field(c, "text"@)
        } else if kind->0 == "image"@ {
            json_str_field(c, "image_key"@)
        } else {
            None
        };
        match inner {
            None => r is None,
            Some(v) => r matches Some(b) && {
                &&& b.platform == Platform::Feishu
                &&& b.chat_id@ == chat->0
                &&& b.sender_id@ == sender->0
                &&& b.sender_name@ == name
                &&& (if kind->0 == "text"@ {
                    content_is_text(b.content, v)
                } else {
                    b.content matches MessageContent::Image { url, caption } && url@ == v && caption is None
                })
                &&& b.reply_to is None
                &&& b.external_message_id@ == id->0
            },
        }
    }
}

/// The Feishu adapter's app credentials, health and tenant access token.
pub struct FeishuAdapter {
    app_id: String,
    app_secret: String,
    health: AdapterHealth,
    tenant_access_token: Option<String>,
}

/// The message kind and message content of a content sent to Feishu: texts and pictures only.
pub open spec fn feishu_payload(content: MessageContent) -> Option<(Seq<char>, Seq<char>)> {
    match content {
        MessageContent::Text(t) => Some(("text"@, "{\"text\":"@ + json_quoted(t@) + "}"@)),
        MessageContent::Image { url, .. } => Some(("image"@, "{\"image_key\":"@ + json_quoted(url@) + "}"@)),
        _ => None,
    }
}

/// The request that sends a content to a Feishu chat: the authorization header and the JSON
/// body. It needs a tenant access token; contents other than texts and pictures are refused.
pub open spec fn feishu_send_spec(token: Option<Seq<char>>, chat_id: Seq<char>, content: MessageContent) -> Result<(Seq<char>, Seq<char>), Seq<char>> {
    match token {
        None => Err("no access token"@),
        Some(t) => match feishu_payload(content) {
            None => Err("unsupported content type for feishu"@),
            Some((kind, inner)) => Ok((
                "Bearer "@ + t,
                "{\"content\":"@ + json_quoted(inner) + ",\"msg_type\":"@ + json_quoted(kind) + ",\"receive_id\":"@
                    + json_quoted(chat_id) + "}"@,
            )),
        },
    }
}

impl FeishuAdapter {
    pub closed spec fn app_id_text(&self) -> Seq<char> {
        self.app_id@
    }

    pub closed spec fn app_secret_text(&self) -> Seq<char> {
        self.app_secret@
    }

    pub closed spec fn health_state(&self) -> AdapterHealth {
        self.health
    }

    pub closed spec fn access_token(&self) -> Option<Seq<char>> {
        opt_chars(self.tenant_access_token)
    }

    pub open spec fn same_credentials(&self, other: &Self) -> bool {
        self.app_id_text() == other.app_id_text() && self.app_secret_text() == other.app_secret_text()
    }

    pub fn new(app_id: String, app_secret: String) -> (a: Self)
        ensures
            a.app_id_text() == app_id@,
            a.app_secret_text() == app_secret@,
            a.health_state() == AdapterHealth::Disconnected,
            a.access_token() is None,
    {
        FeishuAdapter { app_id, app_secret, health: AdapterHealth::Disconnected, tenant_access_token: None }
    }

    pub fn platform(&self) -> (p: Platform)
        ensures
            p == Platform::Feishu,
    {
        Platform::Feishu
    }

    pub fn health(&self) -> (h: AdapterHealth)
        ensures
            h == self.health_state(),
    {
        copy_health(&self.health)
    }

    /// Connecting has begun (the token is being fetched).
    pub fn begin_connect(&mut self)
        ensures
            final(self).health_state() == AdapterHealth::Connecting,
            final(self).same_credentials(old(self)),
            final(self).access_token() == old(self).access_token(),
    {
        self.health = AdapterHealth::Connecting;
    }

    /// The token was fetched.
    pub fn finish_connect(&mut self)
        ensures
            final(self).health_state() == AdapterHealth::Connected,
            final(self).same_credentials(old(self)),
            final(self).access_token() == old(self).access_token(),
    {
        self.health = AdapterHealth::Connected;
    }

    pub fn finish_disconnect(&mut self)
        ensures
            final(self).health_state() == AdapterHealth::Disconnected,
            final(self).same_credentials(old(self)),
            final(self).access_token() == old(self).access_token(),
    {
        self.health = AdapterHealth::Disconnected;
    }

    /// The JSON body that asks for a tenant access token.
    pub fn token_request_body(&self) -> (r: String)
        ensures
            r@ == "{\"app_id\":"@ + json_quoted(self.app_id_text()) + ",\"app_secret\":"@ + json_quoted(self.app_secret_text())
                + "}"@,
    {
        let mut r = String::from_str("{\"app_id\":");
        append_str(&mut r, json_quote(self.app_id.as_str()).as_str());
        append_str(&mut r, ",\"app_secret\":");
        append_str(&mut r, json_quote(self.app_secret.as_str()).as_str());
        append_str(&mut r, "}");
        r
    }

    /// Takes the token out of the reply to a token request and keeps it; a reply without one
    /// is an error and changes nothing.
    pub fn accept_token_reply(&mut self, reply: &str) -> (r: Result<String, String>)
        ensures
            final(self).same_credentials(old(self)),
            final(self).health_state() == old(self).health_state(),
            match json_str_field(reply@, "tenant_access_token"@) {
                Some(t) => r matches Ok(x) && x@ == t && final(self).access_token() == Some(t),
                None => r matches Err(e) && e@ == "missing tenant_access_token"@
                    && final(self).access_token() == old(self).access_token(),
            },
    {
        match json_get_str(reply, "tenant_access_token") {
            Some(t) => {
                self.tenant_access_token = Some(t.clone());
                Ok(t)
            },
            None => Err(String::from_str("missing tenant_access_token")),
        }
    }

    /// The request that sends a content to a chat; see `feishu_send_spec`.
    pub fn send_request(&self, chat_id: &str, content: &MessageContent) -> (r: Result<(String, String), String>)
        ensures
            match r {
                Ok((auth, body)) => feishu_send_spec(self.access_token(), chat_id@, *content) == Ok::<(Seq<char>, Seq<char>), Seq<char>>((auth@, body@)),
                Err(e) => feishu_send_spec(self.access_token(), chat_id@, *content) == Err::<(Seq<char>, Seq<char>), Seq<char>>(e@),
            },
    {
        let token = match &self.tenant_access_token {
            Some(t) => t,
            None => return Err(String::from_str("no access token")),
        };
        let (kind, inner) = match content {
            MessageContent::Text(t) => {
                let mut inner = String::from_str("{\"text\":");
                append_str(&mut inner, json_quote(t.as_str()).as_str());
                append_str(&mut inner, "}");
                (String::from_str("text"), inner)
            },
            MessageContent::Image { url, .. } => {
                let mut inner = String::from_str("{\"image_key\":");
                append_str(&mut inner, json_quote(url.as_str()).as_str());
                append_str(&mut inner, "}");
                (String::from_str("image"), inner)
            },
            _ => return Err(String::from_str("unsupported content type for feishu")),
        };
        let mut auth = String::from_str("Bearer ");
        append_str(&mut auth, token.as_str());
        let mut body = String::from_str("{\"content\":");
        append_str(&mut body, json_quote(inner.as_str()).as_str());
        append_str(&mut body, ",\"msg_type\":");
        append_str(&mut body, json_quote(kind.as_str()).as_str());
        append_str(&mut body, ",\"receive_id\":");
        append_str(&mut body, json_quote(chat_id).as_str());
        append_str(&mut body, "}");
        Ok((auth, body))
    }

    /// The id of the message that a send reply reports (`data.message_id`), empty when none.
    pub fn sent_message_id(reply: &str) -> (r: String)
        ensures
            r@ == str_or(json_pointer_str(reply@, "/data/message_id"@), Seq::empty()),
    {
        match json_get_pointer_str(reply, "/data/message_id") {
            Some(s) => s,
            None => String::new(),
        }
    }

    /// The bridge message of a Feishu event (JSON text); see `feishu_event_spec`.
    pub fn parse_event(event: &str) -> (r: Option<BridgeMessage>)
        ensures
            feishu_event_spec(event@, r),
    {
        let chat_id = match json_get_pointer_str(event, "/message/chat_id") {
            Some(s) => s,
            None => return None,
        };
        let sender = match json_get_pointer_str(event, "/sender/sender_id/open_id") {
            Some(s) => s,
            None => return None,
        };
        let sender_name = match json_get_pointer_str(event, "/sender/sender_id/union_id") {
            Some(s) => s,
            None => String::from_str("unknown"),
        };
        let kind = match json_get_pointer_str(event, "/message/message_type") {
            Some(s) => s,
            None => return None,
        };
        let content_str = match json_get_pointer_str(event, "/message/content") {
            Some(s) => s,
            None => return None,
        };
        let content = if str_eq(kind.as_str(), "text") {
            match json_get_str(content_str.as_str(), "text") {
                Some(t) => MessageContent::Text(t),
                None => return None,
            }
        } else if str_eq(kind.as_str(), "image") {
            match json_get_str(content_str.as_str(), "image_key") {
                Some(k) => MessageContent::Image { url: k, caption: None },
                None => return None,
            }
        } else {
            return None;
        };
        let message_id = match json_get_pointer_str(event, "/message/message_id") {
            Some(s) => s,
            None => return None,
        };
        Some(BridgeMessage {
            platform: Platform::Feishu,
            chat_id,
            sender_id: sender,
            sender_name,
            content,
            reply_to: None,
            external_message_id: message_id,
            timestamp: now_rfc3339(),
        })
    }
}

// ── QQ ──

/// A QQ message from the fields read at the given places of the event, when all are there.
pub open spec fn qq_spec(
    chat: Option<Seq<char>>,
    sender: Option<Seq<char>>,
    content: Option<Seq<char>>,
    id: Option<Seq<char>>,
    r: Option<BridgeMessage>,
) -> bool {
    if chat is None || sender is None || content is None || id is None {
        r is None
    } else {
        r matches Some(b) && {
            &&& b.platform == Platform::QQ
            &&& b.chat_id@ == chat->0
            &&& b.sender_id@ == sender->0
            &&& b.sender_name@ == "QQ User"@
            &&& content_is_text(b.content, content->0)
            &&& b.reply_to is None
            &&& b.external_message_id@ == id->0
        }
    }
}

fn qq_message(chat_id: String, sender_id: String, content: String, message_id: String) -> (b: BridgeMessage)
    ensures
        b.platform == Platform::QQ,
        b.chat_id == chat_id && b.sender_id == sender_id && b.sender_name@ == "QQ User"@,
        content_is_text(b.content, content@),
        b.reply_to is None,
        b.external_message_id == message_id,
{
    BridgeMessage {
        platform: Platform::QQ,
        chat_id,
        sender_id,
        sender_name: String::from_str("QQ User"),
        content: MessageContent::Text(content),
        reply_to: None,
        external_message_id: message_id,
        timestamp: now_rfc3339(),
    }
}

/// The QQ adapter's app id and secret, health and access token.
pub struct QQAdapter {
    app_id: String,
    token: String,
    health: AdapterHealth,
    access_token: Option<String>,
}

/// The request that sends a content to a QQ user: the address, the authorization header and
/// the JSON body. It needs an access token; only texts are sent.
pub open spec fn qq_send_spec(token: Option<Seq<char>>, chat_id: Seq<char>, content: MessageContent) -> Result<(Seq<char>, Seq<char>, Seq<char>), Seq<char>> {
    match token {
        None => Err("no access token"@),
        Some(t) => match content {
            MessageContent::Text(text) => Ok((
                "https://api.sgroup.qq.com/v2/users/"@ + chat_id + "/messages"@,
                "QQBot "@ + t,
                "{\"content\":"@ + json_quoted(text@) + ",\"msg_type\":0}"@,
            )),
            _ => Err("unsupported content type for QQ"@),
        },
    }
}

impl QQAdapter {
    pub closed spec fn app_id_text(&self) -> Seq<char> {
        self.app_id@
    }

    pub closed spec fn secret_text(&self) -> Seq<char> {
        self.token@
    }

    pub closed spec fn health_state(&self) -> AdapterHealth {
        self.health
    }

    pub closed spec fn access_token(&self) -> Option<Seq<char>> {
        opt_chars(self.access_token)
    }

    pub open spec fn same_credentials(&self, other: &Self) -> bool {
        self.app_id_text() == other.app_id_text() && self.secret_text() == other.secret_text()
    }

    pub fn new(app_id: String, token: String) -> (a: Self)
        ensures
            a.app_id_text() == app_id@,
            a.secret_text() == token@,
            a.health_state() == AdapterHealth::Disconnected,
            a.access_token() is None,
    {
        QQAdapter { app_id, token, health: AdapterHealth::Disconnected, access_token: None }
    }

    pub fn platform(&self) -> (p: Platform)
        ensures
            p == Platform::QQ,
    {
        Platform::QQ
    }

    pub fn health(&self) -> (h: AdapterHealth)
        ensures
            h == self.health_state(),
    {
        copy_health(&self.health)
    }

    /// Connecting has begun (the token is being fetched).
    pub fn begin_connect(&mut self)
        ensures
            final(self).health_state() == AdapterHealth::Connecting,
            final(self).same_credentials(old(self)),
            final(self).access_token() == old(self).access_token(),
    {
        self.health = AdapterHealth::Connecting;
    }

    /// The token was fetched.
    pub fn finish_connect(&mut self)
        ensures
            final(self).health_state() == AdapterHealth::Connected,
            final(self).same_credentials(old(self)),
            final(self).access_token() == old(self).access_token(),
    {
        self.health = AdapterHealth::Connected;
    }

    pub fn finish_disconnect(&mut self)
        ensures
            final(self).health_state() == AdapterHealth::Disconnected,
            final(self).same_credentials(old(self)),
            final(self).access_token() == old(self).access_token(),
    {
        self.health = AdapterHealth::Disconnected;
    }

    /// The JSON body that asks for an access token.
    pub fn token_request_body(&self) -> (r: String)
        ensures
            r@ == "{\"appId\":"@ + json_quoted(self.app_id_text()) + ",\"clientSecret\":"@ + json_quoted(self.secret_text())
                + "}"@,
    {
        let mut r = String::from_str("{\"appId\":");
        append_str(&mut r, json_quote(self.app_id.as_str()).as_str());
        append_str(&mut r, ",\"clientSecret\":");
        append_str(&mut r, json_quote(self.token.as_str()).as_str());
        append_str(&mut r, "}");
        r
    }

    /// Takes the token out of the reply to a token request and keeps it; a reply without one
    /// is an error and changes nothing.
    pub fn accept_token_reply(&mut self, reply: &str) -> (r: Result<String, String>)
        ensures
            final(self).same_credentials(old(self)),
            final(self).health_state() == old(self).health_state(),
            match json_str_field(reply@, "access_token"@) {
                Some(t) => r matches Ok(x) && x@ == t && final(self).access_token() == Some(t),
                None => r matches Err(e) && e@ == "missing access_token"@
                    && final(self).access_token() == old(self).access_token(),
            },
    {
        match json_get_str(reply, "access_token") {
            Some(t) => {
                self.access_token = Some(t.clone());
                Ok(t)
            },
            None => Err(String::from_str("missing access_token")),
        }
    }

    /// The request that sends a content to a user; see `qq_send_spec`.
    pub fn send_request(&self, chat_id: &str, content: &MessageContent) -> (r: Result<(String, String, String), String>)
        ensures
            match r {
                Ok((url, auth, body)) => qq_send_spec(self.access_token(), chat_id@, *content)
                    == Ok::<(Seq<char>, Seq<char>, Seq<char>), Seq<char>>((url@, auth@, body@)),
                Err(e) => qq_send_spec(self.access_token(), chat_id@, *content)
                    == Err::<(Seq<char>, Seq<char>, Seq<char>), Seq<char>>(e@),
            },
    {
        let token = match &self.access_token {
            Some(t) => t,
            None => return Err(String::from_str("no access token")),
        };
        let text = match content {
            MessageContent::Text(t) => t,
            _ => return Err(String::from_str("unsupported content type for QQ")),
        };
        let mut url = String::from_str("https://api.sgroup.qq.com/v2/users/");
        append_str(&mut url, chat_id);
        append_str(&mut url, "/messages");
        let mut auth = String::from_str("QQBot ");
        append_str(&mut auth, token.as_str());
        let mut body = String::from_str("{\"content\":");
        append_str(&mut body, json_quote(text.as_str()).as_str());
        append_str(&mut body, ",\"msg_type\":0}");
        Ok((url, auth, body))
    }

    /// The id of the message that a send reply reports (`id`), empty when none.
    pub fn sent_message_id(reply: &str) -> (r: String)
        ensures
            r@ == str_or(json_str_field(reply@, "id"@), Seq::empty()),
    {
        match json_get_str(reply, "id") {
            Some(s) => s,
            None => String::new(),
        }
    }

    /// The bridge message of a QQ private message event (JSON text): the chat is the sender.
    pub fn parse_c2c_message(event: &str) -> (r: Option<BridgeMessage>)
        ensures
            qq_spec(
                json_pointer_str(event@, "/data/author/user_openid"@),
                json_pointer_str(event@, "/data/author/user_openid"@),
                json_pointer_str(event@, "/data/content"@),
                json_pointer_str(event@, "/data/id"@),
                r,
            ),
    {
        let sender_id = match json_get_pointer_str(event, "/data/author/user_openid") {
            Some(s) => s,
            None => return None,
        };
        let content = match json_get_pointer_str(event, "/data/content") {
            Some(s) => s,
            None => return None,
        };
        let message_id = match json_get_pointer_str(event, "/data/id") {
            Some(s) => s,
            None => return None,
        };
        Some(qq_message(sender_id.clone(), sender_id, content, message_id))
    }

    /// The bridge message of a QQ group message event (JSON text): the chat is the group.
    pub fn parse_group_message(event: &str) -> (r: Option<BridgeMessage>)
        ensures
            qq_spec(
                json_pointer_str(event@, "/data/group_openid"@),
                json_pointer_str(event@, "/data/author/member_openid"@),
                json_pointer_str(event@, "/data/content"@),
                json_pointer_str(event@, "/data/id"@),
                r,
            ),
    {
        let group_id = match json_get_pointer_str(event, "/data/group_openid") {
            Some(s) => s,
            None => return None,
        };
        let sender_id = match json_get_pointer_str(event, "/data/author/member_openid") {
            Some(s) => s,
            None => return None,
        };
        let content = match json_get_pointer_str(event, "/data/content") {
            Some(s) => s,
            None => return None,
        };
        let message_id = match json_get_pointer_str(event, "/data/id") {
            Some(s) => s,
            None => return None,
        };
        Some(qq_message(group_id, sender_id, content, message_id))
    }
}

// ── WeChat ──

/// Whether an iLink message holds the chat, sender, content and message id.
pub open spec fn ilink_readable(msg: Seq<char>) -> bool {
    &&& json_str_field(msg, "chat_id"@) is Some
    &&& json_str_field(msg, "sender_id"@) is Some
    &&& json_str_field(msg, "content"@) is Some
    &&& json_str_field(msg, "message_id"@) is Some
}

/// What the bridge message read from a WeChat iLink message (JSON text) is: none unless it is
/// readable; the sender's name is `unknown` when missing.
pub open spec fn ilink_reading(msg: Seq<char>, r: Option<BridgeMessage>) -> bool {
    if !ilink_readable(msg) {
        r is None
    } else {
        r matches Some(b) && {
            &&& b.platform == Platform::Wechat
            &&& b.chat_id@ == json_str_field(msg, "chat_id"@)->0
            &&& b.sender_id@ == json_str_field(msg, "sender_id"@)->0
            &&& b.sender_name@ == str_or(json_str_field(msg, "sender_name"@), "unknown"@)
            &&& content_is_text(b.content, json_str_field(msg, "content"@)->0)
            &&& b.reply_to is None
            &&& b.external_message_id@ == json_str_field(msg, "message_id"@)->0
        }
    }
}

/// The readable iLink messages of a batch, in order.
pub open spec fn readable_ilink(items: Seq<Seq<char>>) -> Seq<Seq<char>> {
    items.filter(|m: Seq<char>| ilink_readable(m))
}

/// The id of the last message of the batch that names one, or `since` when none does.
pub open spec fn last_message_id(items: Seq<Seq<char>>, since: Option<Seq<char>>) -> Option<Seq<char>>
    decreases items.len(),
{
    if items.len() == 0 {
        since
    } else {
        match json_str_field(items.last(), "message_id"@) {
            Some(id) => Some(id),
            None => last_message_id(items.drop_last(), since),
        }
    }
}

/// The text sent to WeChat for a content: a text as it is, a picture as its address, a space
/// and its caption (empty when none); other contents are refused.
pub open spec fn wechat_text(content: MessageContent) -> Option<Seq<char>> {
    match content {
        MessageContent::Text(t) => Some(t@),
        MessageContent::Image { url, caption } => Some(url@ + " "@ + text_or_empty(caption)),
        _ => None,
    }
}

/// The WeChat adapter's API key and health.
pub struct WechatAdapter {
    api_key: String,
    health: AdapterHealth,
}

impl WechatAdapter {
    pub closed spec fn key(&self) -> Seq<char> {
        self.api_key@
    }

    pub closed spec fn health_state(&self) -> AdapterHealth {
        self.health
    }

    pub fn new(api_key: String) -> (a: Self)
        ensures
            a.key() == api_key@,
            a.health_state() == AdapterHealth::Disconnected,
    {
        WechatAdapter { api_key, health: AdapterHealth::Disconnected }
    }

    pub fn platform(&self) -> (p: Platform)
        ensures
            p == Platform::Wechat,
    {
        Platform::Wechat
    }

    pub fn health(&self) -> (h: AdapterHealth)
        ensures
            h == self.health_state(),
    {
        copy_health(&self.health)
    }

    /// Polling has begun.
    pub fn begin_connect(&mut self)
        ensures
            final(self).health_state() == AdapterHealth::Connecting,
            final(self).key() == old(self).key(),
    {
        self.health = AdapterHealth::Connecting;
    }

    /// Polling runs.
    pub fn finish_connect(&mut self)
        ensures
            final(self).health_state() == AdapterHealth::Connected,
            final(self).key() == old(self).key(),
    {
        self.health = AdapterHealth::Connected;
    }

    pub fn finish_disconnect(&mut self)
        ensures
            final(self).health_state() == AdapterHealth::Disconnected,
            final(self).key() == old(self).key(),
    {
        self.health = AdapterHealth::Disconnected;
    }

    /// The authorization header: the API key as a bearer token.
    pub fn auth_header(&self) -> (r: String)
        ensures
            r@ == "Bearer "@ + self.key(),
    {
        let mut r = String::from_str("Bearer ");
        append_str(&mut r, self.api_key.as_str());
        r
    }

    /// The address of the next poll, after the last message seen when there is one.
    pub fn poll_url(since_id: Option<&str>) -> (r: String)
        ensures
            r@ == match since_id {
                Some(id) => "https://api.ilink.ai/api/v1/messages/poll"@ + "?since_id="@ + id@,
                None => "https://api.ilink.ai/api/v1/messages/poll"@,
            },
    {
        let mut r = String::from_str("https://api.ilink.ai/api/v1/messages/poll");
        match since_id {
            Some(id) => {
                append_str(&mut r, "?since_id=");
                append_str(&mut r, id);
            },
            None => {},
        }
        r
    }

    /// One poll reply (JSON text): the bridge messages of the readable messages under
    /// `messages`, in order, and the id of the last message seen (unchanged when the reply
    /// holds no message list, or no message of it names an id).
    pub fn take_poll_reply(body: &str, since_id: Option<String>) -> (r: (Vec<BridgeMessage>, Option<String>))
        ensures
            match json_array_items(body@, "messages"@) {
                None => r.0@.len() == 0 && opt_chars(r.1) == opt_chars(since_id),
                Some(items) => {
                    &&& opt_chars(r.1) == last_message_id(items, opt_chars(since_id))
                    &&& r.0@.len() == readable_ilink(items).len()
                    &&& forall|k: int| 0 <= k < r.0@.len() ==> ilink_reading(#[trigger] readable_ilink(items)[k], Some(r.0@[k]))
                },
            },
    {
        let items = match json_get_array_items(body, "messages") {
            Some(v) => v,
            None => return (Vec::new(), since_id),
        };
        let ghost its = Seq::new(items@.len(), |i: int| items@[i]@);
        let ghost f = |m: Seq<char>| ilink_readable(m);
        let mut msgs: Vec<BridgeMessage> = Vec::new();
        let mut since = since_id;
        let n = items.len();
        let mut i: usize = 0;
        while i < n
            invariant
                n == items@.len(),
                0 <= i <= n,
                its == Seq::new(items@.len(), |i: int| items@[i]@),
                f == (|m: Seq<char>| ilink_readable(m)),
                opt_chars(since) == last_message_id(its.take(i as int), opt_chars(since_id)),
                msgs@.len() == its.take(i as int).filter(f).len(),
                forall|k: int| 0 <= k < msgs@.len() ==> ilink_reading(#[trigger] its.take(i as int).filter(f)[k], Some(msgs@[k])),
            decreases n - i,
        {
            let item = &items[i];
            proof {
                lemma_filter_step(its, i as int, f);
                assert(its.take(i + 1).drop_last() =~= its.take(i as int));
                assert(its.take(i + 1).last() == item@);
            }
            match json_get_str(item.as_str(), "message_id") {
                Some(id) => {
                    since = Some(id);
                },
                None => {},
            }
            match WechatAdapter::parse_ilink_message(item.as_str()) {
                Some(m) => {
                    msgs.push(m);
                },
                None => {},
            }
            i = i + 1;
        }
        proof {
            assert(its.take(n as int) =~= its);
        }
        (msgs, since)
    }

    /// The JSON body that sends a content to a chat; see `wechat_text`.
    pub fn send_body(chat_id: &str, content: &MessageContent) -> (r: Result<String, String>)
        ensures
            match wechat_text(*content) {
                Some(t) => r matches Ok(body) && body@ == "{\"chat_id\":"@ + json_quoted(chat_id@) + ",\"content\":"@
                    + json_quoted(t) + "}"@,
                None => r matches Err(e) && e@ == "unsupported content type for wechat"@,
            },
    {
        let text = match content {
            MessageContent::Text(t) => t.clone(),
            MessageContent::Image { url, caption } => {
                let mut t = url.clone();
                append_str(&mut t, " ");
                match caption {
                    Some(c) => append_str(&mut t, c.as_str()),
                    None => {},
                }
                t
            },
            _ => return Err(String::from_str("unsupported content type for wechat")),
        };
        let mut body = String::from_str("{\"chat_id\":");
        append_str(&mut body, json_quote(chat_id).as_str());
        append_str(&mut body, ",\"content\":");
        append_str(&mut body, json_quote(text.as_str()).as_str());
        append_str(&mut body, "}");
        Ok(body)
    }

    /// The id of the message that a send reply reports (`message_id`), empty when none.
    pub fn sent_message_id(reply: &str) -> (r: String)
        ensures
            r@ == str_or(json_str_field(reply@, "message_id"@), Seq::empty()),
    {
        match json_get_str(reply, "message_id") {
            Some(s) => s,
            None => String::new(),
        }
    }

    /// The bridge message of a WeChat iLink message (JSON text); see `ilink_reading`.
    pub fn parse_ilink_message(msg: &str) -> (r: Option<BridgeMessage>)
        ensures
            ilink_reading(msg@, r),
    {
        let chat_id = match json_get_str(msg, "chat_id") {
            Some(s) => s,
            None => return None,
        };
        let sender_id = match json_get_str(msg, "sender_id") {
            Some(s) => s,
            None => return None,
        };
        let sender_name = match json_get_str(msg, "sender_name") {
            Some(s) => s,
            None => String::from_str("unknown"),
        };
        let text = match json_get_str(msg, "content") {
            Some(s) => s,
            None => return None,
        };
        let message_id = match json_get_str(msg, "message_id") {
            Some(s) => s,
            None => return None,
        };
        Some(BridgeMessage {
            platform: Platform::Wechat,
            chat_id,
            sender_id,
            sender_name,
            content: MessageContent::Text(text),
            reply_to: None,
            external_message_id: message_id,
            timestamp: now_rfc3339(),
        })
    }
}

} // verus!
