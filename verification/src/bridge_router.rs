//! The admission of bridge messages (duplicates, rate, loops) and the rows the bridge keeps
//! of sessions, messages and users. The caller stores the rows.

use std::path::PathBuf;
use vstd::prelude::*;

use crate::bridge_types::{
    access_state_named, direction_named, platform_name, platform_named, AccessState, MessageContent, MessageDirection,
    Platform,
};
use crate::security::{dedup_step, loop_step, prune, LoopDetector, MessageDedup, RateLimiter};
use crate::text::{append_str, lowercase};

verus! {

/// A message as every adapter hands it over.
pub struct BridgeMessage {
    pub platform: Platform,
    pub chat_id: String,
    pub sender_id: String,
    pub sender_name: String,
    pub content: MessageContent,
    pub reply_to: Option<String>,
    pub external_message_id: String,
    /// When the message was sent, as RFC 3339 text.
    pub timestamp: String,
}

/// `platform:id`, the key of a user or chat on a platform, and the id of a chat's session.
pub open spec fn platform_key(p: Platform, id: Seq<char>) -> Seq<char> {
    platform_name(p) + ":"@ + id
}

pub fn platform_key_of(p: Platform, id: &str) -> (r: String)
    ensures
        r@ == platform_key(p, id@),
{
    let mut r = String::from_str(p.name());
    append_str(&mut r, ":");
    append_str(&mut r, id);
    r
}

/// Routes inbound bridge messages through the security checks.
pub struct MessageRouter {
    db_path: PathBuf,
    rate_limiter: RateLimiter,
    dedup: MessageDedup,
    loop_detector: LoopDetector,
}

/// How many message ids a router remembers.
pub const DEDUP_CAPACITY: usize = 10000;

/// After how many consecutive bot messages a chat is looping.
pub const LOOP_THRESHOLD: u32 = 3;

impl MessageRouter {
    pub closed spec fn limiter(&self) -> RateLimiter {
        self.rate_limiter
    }

    pub closed spec fn seen(&self) -> MessageDedup {
        self.dedup
    }

    pub closed spec fn loops(&self) -> LoopDetector {
        self.loop_detector
    }

    pub closed spec fn path(&self) -> PathBuf {
        self.db_path
    }

    pub fn new(db_path: PathBuf, rate_limit_per_minute: u32) -> (r: Self)
        ensures
            r.path() == db_path,
            r.limiter().limit() == rate_limit_per_minute,
            r.limiter().windows() == Map::<Seq<char>, Seq<u128>>::empty(),
            r.seen().seen() == Seq::<Seq<char>>::empty(),
            r.seen().capacity() == DEDUP_CAPACITY,
            r.loops().counts() == Map::<Seq<char>, u32>::empty(),
            r.loops().threshold() == LOOP_THRESHOLD,
    {
        MessageRouter {
            db_path,
            rate_limiter: RateLimiter::new(rate_limit_per_minute),
            dedup: MessageDedup::new(DEDUP_CAPACITY),
            loop_detector: LoopDetector::new(LOOP_THRESHOLD),
        }
    }

    /// The database the router's sessions are kept in.
    pub fn db_path(&self) -> (r: &PathBuf)
        ensures
            *r == self.path(),
    {
        &self.db_path
    }

    /// Consecutive bot messages recorded for a chat.
    pub fn loop_count(&self, chat_key: &str) -> (n: u32)
        ensures
            n == self.loops().count(chat_key@),
    {
        self.loop_detector.count_of(chat_key)
    }

    /// Whether an inbound message is to be recorded: it is dropped when its id was seen
    /// before, when its sender (`platform:sender`) is over the rate limit, or when its chat
    /// (`platform:chat`) is looping (its count of consecutive bot replies has reached the
    /// threshold). An admitted message from a person resets the loop count of its chat.
    pub fn admit_inbound(&mut self, msg: &BridgeMessage) -> (admitted: bool)
        ensures
            final(self).path() == old(self).path(),
            final(self).seen().capacity() == old(self).seen().capacity(),
            final(self).limiter().limit() == old(self).limiter().limit(),
            final(self).loops().threshold() == old(self).loops().threshold(),
            ({
                let (dup, seen2) = dedup_step(old(self).seen().seen(), old(self).seen().capacity(), msg.external_message_id@);
                let user = platform_key(msg.platform, msg.sender_id@);
                let chat = platform_key(msg.platform, msg.chat_id@);
                &&& final(self).seen().seen() == seen2
                &&& dup ==> !admitted && final(self).limiter().windows() == old(self).limiter().windows()
                    && final(self).loops().counts() == old(self).loops().counts()
                &&& !dup ==> exists|now: u128|
                    {
                        &&& admitted == ((#[trigger] prune(old(self).limiter().window(user), now)).len() < old(self).limiter().limit()
                            && old(self).loops().count(chat) < old(self).loops().threshold())
                        &&& final(self).limiter().windows() == old(self).limiter().windows().insert(
                            user,
                            prune(old(self).limiter().window(user), now).push(now),
                        )
                    }
                &&& !dup && admitted ==> final(self).loops().counts() == old(self).loops().counts().insert(chat, 0)
                &&& !dup && !admitted ==> final(self).loops().counts() == old(self).loops().counts()
            }),
    {
        if self.dedup.is_duplicate(msg.external_message_id.as_str()) {
            return false;
        }
        let user_key = platform_key_of(msg.platform, msg.sender_id.as_str());
        let ghost rl0 = self.rate_limiter;
        assert(rl0 == old(self).limiter());
        let allowed = self.rate_limiter.check(user_key.as_str());
        proof {
            let now = choose|now: u128|
                {
                    &&& allowed == (#[trigger] prune(rl0.window(user_key@), now).len() < rl0.limit())
                    &&& self.rate_limiter.windows() == rl0.windows().insert(user_key@, prune(rl0.window(user_key@), now).push(now))
                };
            assert(prune(old(self).limiter().window(user_key@), now) == prune(rl0.window(user_key@), now));
        }
        if !allowed {
            return false;
        }
        let chat_key = platform_key_of(msg.platform, msg.chat_id.as_str());
        if self.loop_detector.count_of(chat_key.as_str()) >= self.loop_detector.loop_threshold() {
            return false;
        }
        let _ = self.loop_detector.check(chat_key.as_str(), false);
        proof {
            assert(self.loop_detector.count(chat_key@) == 0);
            assert(self.loop_detector.counts() =~= old(self).loop_detector.counts().insert(chat_key@, 0));
        }
        true
    }

    /// Notes a reply sent into a session; says whether the chat is now looping.
    pub fn note_outbound(&mut self, session_id: &str) -> (looping: bool)
        requires
            old(self).loops().count(session_id@) < u32::MAX,
        ensures
            (looping, final(self).loops().count(session_id@)) == loop_step(
                old(self).loops().count(session_id@),
                true,
                old(self).loops().threshold(),
            ),
            final(self).loops().counts() == old(self).loops().counts().insert(
                session_id@,
                final(self).loops().count(session_id@) as u32,
            ),
            final(self).loops().threshold() == old(self).loops().threshold(),
            final(self).path() == old(self).path(),
            final(self).seen() == old(self).seen(),
            final(self).limiter() == old(self).limiter(),
    {
        self.loop_detector.check(session_id, true)
    }
}

// ── stored rows ──

/// A row of `bridge_sessions`.
pub struct BridgeSession {
    pub id: String,
    pub platform: Platform,
    pub external_chat_id: String,
    pub external_user_id: Option<String>,
    pub user_name: Option<String>,
    pub user_avatar_url: Option<String>,
    pub access_state: AccessState,
    pub pairing_code: Option<String>,
    pub created_at: String,
    pub last_message_at: Option<String>,
    pub message_count: i64,
}

/// A row of `bridge_messages`.
pub struct BridgeMessageRow {
    pub id: i64,
    pub session_id: String,
    pub direction: MessageDirection,
    pub content: Option<String>,
    pub media_type: String,
    pub media_url: Option<String>,
    pub external_message_id: Option<String>,
    pub timestamp: String,
}

/// A row of `bridge_known_users`.
pub struct KnownUserRow {
    pub platform: Platform,
    pub user_id: String,
    pub user_name: Option<String>,
    pub avatar_url: Option<String>,
    pub first_seen: String,
    pub last_seen: Option<String>,
}

/// The platform stored as `s`, read as `Platform::from_str` reads it; Telegram when unknown.
pub open spec fn stored_platform(s: Seq<char>) -> Platform {
    match platform_named(lowercase(s)) {
        Some(p) => p,
        None => Platform::Telegram,
    }
}

pub fn platform_from_column(s: &str) -> (p: Platform)
    ensures
        p == stored_platform(s@),
{
    match Platform::from_str(s) {
        Some(p) => p,
        None => Platform::Telegram,
    }
}

/// The access state stored as `s`; active when unknown.
pub open spec fn stored_access(s: Seq<char>) -> AccessState {
    match access_state_named(s) {
        Some(a) => a,
        None => AccessState::Active,
    }
}

pub fn access_from_column(s: &str) -> (a: AccessState)
    ensures
        a == stored_access(s@),
{
    match AccessState::from_str(s) {
        Some(a) => a,
        None => AccessState::Active,
    }
}

/// The direction stored as `s`; inbound when unknown.
pub open spec fn stored_direction(s: Seq<char>) -> MessageDirection {
    match direction_named(s) {
        Some(d) => d,
        None => MessageDirection::Inbound,
    }
}

pub fn direction_from_column(s: &str) -> (d: MessageDirection)
    ensures
        d == stored_direction(s@),
{
    match MessageDirection::from_str(s) {
        Some(d) => d,
        None => MessageDirection::Inbound,
    }
}

} // verus!
