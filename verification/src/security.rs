//! Per-user rate limiting, message de-duplication and bot-loop detection for bridged chats.

use std::collections::VecDeque;
use std::time::Instant;
use vstd::hash_map::StringHashMap;
use vstd::prelude::*;
use vstd::set_lib::{lemma_int_range, lemma_len_subset, set_int_range};

use crate::clock::{elapsed_nanos, instant_now};


verus! {

/// Length of the sliding window, in nanoseconds (sixty seconds).
pub const WINDOW_NANOS: u128 = 60_000_000_000;

/// An attempt made at `t` is older than the window at time `now`
/// (`Instant::duration_since` saturates at zero when `t` is later than `now`).
pub open spec fn expired(now: u128, t: u128) -> bool {
    now >= t && now - t >= WINDOW_NANOS
}

/// The window after dropping, from the front, the attempts that have left it.
pub open spec fn prune(w: Seq<u128>, now: u128) -> Seq<u128>
    decreases w.len(),
{
    if w.len() > 0 && expired(now, w[0]) {
        prune(w.drop_first(), now)
    } else {
        w
    }
}

/// Per-user rate limiter using a sliding window of sixty seconds.
pub struct RateLimiter {
    max_per_minute: u32,
    windows: StringHashMap<VecDeque<u128>>,
    start: Instant,
}

impl RateLimiter {
    /// The attempts recorded for each user, oldest first, in nanoseconds since creation.
    pub closed spec fn windows(&self) -> Map<Seq<char>, Seq<u128>> {
        self.windows@.map_values(|d: VecDeque<u128>| d@)
    }

    /// The attempts recorded for `user`, oldest first (none if the user was never seen).
    pub open spec fn window(&self, user: Seq<char>) -> Seq<u128> {
        if self.windows().contains_key(user) {
            self.windows()[user]
        } else {
            Seq::empty()
        }
    }

    pub closed spec fn limit(&self) -> u32 {
        self.max_per_minute
    }

    pub fn new(max_per_minute: u32) -> (r: Self)
        ensures
            r.limit() == max_per_minute,
            r.windows() == Map::<Seq<char>, Seq<u128>>::empty(),
    {
        let r = RateLimiter { max_per_minute, windows: StringHashMap::new(), start: instant_now() };
        assert(r.windows() =~= Map::<Seq<char>, Seq<u128>>::empty());
        r
    }

    /// The decision of `check` for an attempt by `user_key` at time `now`
    /// (nanoseconds since the limiter was made): attempts older than sixty seconds
    /// leave the window; the user is within limits when fewer than `max_per_minute`
    /// attempts remain; the attempt is recorded regardless of the result.
    pub fn check_at(&mut self, user_key: &str, now: u128) -> (allowed: bool)
        ensures
            allowed == (prune(old(self).window(user_key@), now).len() < old(self).limit()),
            final(self).limit() == old(self).limit(),
            final(self).windows() == old(self).windows().insert(
                user_key@,
                prune(old(self).window(user_key@), now).push(now),
            ),
    {
        let mut window: VecDeque<u128> = match self.windows.get(user_key) {
            Some(w) => w.clone(),
            None => VecDeque::new(),
        };
        assert(window@ =~= self.window(user_key@));
        let ghost w0 = window@;
        loop
            invariant_except_break
                prune(w0, now) == prune(window@, now),
            ensures
                prune(w0, now) == window@,
            decreases window@.len(),
        {
            if window.len() > 0 {
                let front = window[0];
                if now >= front && now - front >= WINDOW_NANOS {
                    let _ = window.pop_front();
                    continue;
                }
            }
            break;
        }
        let allowed = window.len() < self.max_per_minute as usize;
        window.push_back(now);
        let key = String::from_str(user_key);
        self.windows.insert(key, window);
        assert(self.windows() =~= old(self).windows().insert(
            user_key@,
            prune(old(self).window(user_key@), now).push(now),
        ));
        allowed
    }

    /// Returns `true` if the user is within rate limits. Records the attempt regardless of result.
    /// The time of the attempt is read from the clock.
    pub fn check(&mut self, user_key: &str) -> (allowed: bool)
        ensures
            final(self).limit() == old(self).limit(),
            exists|now: u128|
                {
                    &&& allowed == (prune(old(self).window(user_key@), now).len() < old(self).limit())
                    &&& final(self).windows() == old(self).windows().insert(
                        user_key@,
                        prune(old(self).window(user_key@), now).push(now),
                    )
                },
    {
        let now = elapsed_nanos(&self.start);
        self.check_at(user_key, now)
    }
}


/// The first position at or after `k` that holds `id` (the length when none does).
pub open spec fn first_at(seen: Seq<Seq<char>>, id: Seq<char>, k: int) -> int
    decreases seen.len() - k,
{
    if k < 0 || k >= seen.len() {
        seen.len() as int
    } else if seen[k] == id {
        k
    } else {
        first_at(seen, id, k + 1)
    }
}

/// The outcome of `MessageDedup::is_duplicate`: the answer and the ids remembered afterwards,
/// least recently used first. A remembered id counts as used again: it moves to the most recent
/// end. A new id is added there, and the least recently used id is dropped when the memory is
/// full.
pub open spec fn dedup_step(seen: Seq<Seq<char>>, capacity: nat, id: Seq<char>) -> (bool, Seq<Seq<char>>) {
    if seen.contains(id) {
        (true, seen.remove(first_at(seen, id, 0)).push(id))
    } else if seen.len() >= capacity && seen.len() > 0 {
        (false, seen.drop_first().push(id))
    } else {
        (false, seen.push(id))
    }
}

proof fn lemma_first_at_found(seen: Seq<Seq<char>>, id: Seq<char>, i: int)
    requires
        0 <= i < seen.len(),
        seen[i] == id,
        forall|j: int| 0 <= j < i ==> seen[j] != id,
    ensures
        first_at(seen, id, 0) == i,
{
    lemma_first_at_skips(seen, id, 0, i);
}

proof fn lemma_first_at_skips(seen: Seq<Seq<char>>, id: Seq<char>, k: int, i: int)
    requires
        0 <= k <= i < seen.len(),
        seen[i] == id,
        forall|j: int| k <= j < i ==> seen[j] != id,
    ensures
        first_at(seen, id, k) == i,
    decreases i - k,
{
    if k < i {
        lemma_first_at_skips(seen, id, k + 1, i);
    }
}

pub open spec fn ids_view(v: Seq<String>) -> Seq<Seq<char>> {
    v.map_values(|s: String| s@)
}

/// How many ids a de-duplicator of this capacity remembers at most.
pub open spec fn dedup_bound(capacity: nat) -> nat {
    if capacity == 0 {
        1
    } else {
        capacity
    }
}

/// Deduplicates messages by external_message_id using a bounded LRU cache
pub struct MessageDedup {
    seen: VecDeque<String>,
    capacity: usize,
}

impl MessageDedup {
    /// The ids remembered, oldest first.
    pub closed spec fn seen(&self) -> Seq<Seq<char>> {
        ids_view(self.seen@)
    }

    pub closed spec fn capacity(&self) -> nat {
        self.capacity as nat
    }

    pub fn new(capacity: usize) -> (r: Self)
        ensures
            r.seen() == Seq::<Seq<char>>::empty(),
            r.capacity() == capacity,
    {
        let r = MessageDedup { seen: VecDeque::with_capacity(capacity), capacity };
        assert(r.seen() =~= Seq::<Seq<char>>::empty());
        r
    }

    /// The ids remembered are distinct, and there are no more of them than the capacity
    /// (one, when the capacity is zero).
    #[verifier::type_invariant]
    spec fn well_formed(self) -> bool {
        &&& self.seen().no_duplicates()
        &&& self.seen().len() <= dedup_bound(self.capacity as nat)
    }

    /// Returns `true` if this message_id has been seen before
    pub fn is_duplicate(&mut self, message_id: &str) -> (dup: bool)
        ensures
            (dup, final(self).seen()) == dedup_step(old(self).seen(), old(self).capacity(), message_id@),
            final(self).capacity() == old(self).capacity(),
            final(self).seen().no_duplicates(),
            final(self).seen().len() <= dedup_bound(final(self).capacity()),
    {
        proof { use_type_invariant(&*self); }
        let ghost s0 = self.seen();
        let ghost cap = self.capacity();
        proof {
            law_dedup_ids_distinct(s0, cap, message_id@);
            law_dedup_bounded(s0, cap, message_id@);
        }
        let mut seen: VecDeque<String> = VecDeque::new();
        std::mem::swap(&mut seen, &mut self.seen);
        assert(ids_view(seen@) == s0);
        let key = String::from_str(message_id);
        let mut i: usize = 0;
        while i < seen.len()
            invariant
                i <= seen@.len(),
                ids_view(seen@) == s0,
                s0 == old(self).seen(),
                cap == old(self).capacity(),
                self.capacity as nat == cap,
                dedup_step(s0, cap, message_id@).1.no_duplicates(),
                dedup_step(s0, cap, message_id@).1.len() <= dedup_bound(cap),
                key@ == message_id@,
                forall|j: int| 0 <= j < i ==> s0[j] != message_id@,
            decreases seen@.len() - i,
        {
            if seen[i] == key {
                assert(s0[i as int] == message_id@);
                assert(s0.contains(message_id@));
                proof { lemma_first_at_found(s0, message_id@, i as int); }
                let _ = seen.remove(i);
                seen.push_back(key);
                assert(ids_view(seen@) =~= s0.remove(i as int).push(message_id@));
                self.seen = seen;
                return true;
            }
            i = i + 1;
        }
        assert(!s0.contains(message_id@)) by {
            if s0.contains(message_id@) {
                let j = choose|j: int| 0 <= j < s0.len() && s0[j] == message_id@;
            }
        }
        if seen.len() >= self.capacity {
            let _ = seen.pop_front();
        }
        seen.push_back(key);
        assert(ids_view(seen@) =~= dedup_step(s0, cap, message_id@).1);
        self.seen = seen;
        false
    }
}

/// The outcome of `LoopDetector::check` for a chat whose count of consecutive bot
/// messages was `count`: whether a loop is detected, and the new count.
pub open spec fn loop_step(count: nat, is_bot: bool, threshold: nat) -> (bool, nat) {
    if is_bot {
        (count + 1 >= threshold, count + 1)
    } else {
        (false, 0)
    }
}

/// Detects bot-to-bot reply loops by tracking consecutive bot messages
pub struct LoopDetector {
    consecutive_bot_messages: StringHashMap<u32>,
    threshold: u32,
}

impl LoopDetector {
    /// Consecutive bot messages per chat.
    pub closed spec fn counts(&self) -> Map<Seq<char>, u32> {
        self.consecutive_bot_messages@
    }

    /// The count for `chat` (zero for a chat never seen).
    pub open spec fn count(&self, chat: Seq<char>) -> nat {
        if self.counts().contains_key(chat) {
            self.counts()[chat] as nat
        } else {
            0
        }
    }

    pub closed spec fn threshold(&self) -> nat {
        self.threshold as nat
    }

    pub fn new(threshold: u32) -> (r: Self)
        ensures
            r.counts() == Map::<Seq<char>, u32>::empty(),
            r.threshold() == threshold,
    {
        LoopDetector { consecutive_bot_messages: StringHashMap::new(), threshold }
    }

    /// After how many consecutive bot messages a chat is looping.
    pub fn loop_threshold(&self) -> (t: u32)
        ensures
            t == self.threshold(),
    {
        self.threshold
    }

    /// Consecutive bot messages recorded for `chat_id`.
    pub fn count_of(&self, chat_id: &str) -> (n: u32)
        ensures
            n == self.count(chat_id@),
    {
        match self.consecutive_bot_messages.get(chat_id) {
            Some(c) => *c,
            None => 0,
        }
    }

    /// Record a message in a chat. Returns `true` if a loop is detected.
    pub fn check(&mut self, chat_id: &str, is_bot: bool) -> (looping: bool)
        requires
            is_bot ==> old(self).count(chat_id@) < u32::MAX,
        ensures
            (looping, final(self).count(chat_id@)) == loop_step(old(self).count(chat_id@), is_bot, old(self).threshold()),
            final(self).counts() == old(self).counts().insert(chat_id@, final(self).count(chat_id@) as u32),
            final(self).threshold() == old(self).threshold(),
    {
        let count = self.count_of(chat_id);
        if is_bot {
            let c = count + 1;
            self.consecutive_bot_messages.insert(String::from_str(chat_id), c);
            c >= self.threshold
        } else {
            self.consecutive_bot_messages.insert(String::from_str(chat_id), 0);
            false
        }
    }

    /// Reset counter for a chat (e.g., when a human sends a message)
    pub fn reset(&mut self, chat_id: &str)
        ensures
            final(self).counts() == old(self).counts().insert(chat_id@, 0),
            final(self).threshold() == old(self).threshold(),
    {
        self.consecutive_bot_messages.insert(String::from_str(chat_id), 0);
    }
}


/// The attempts of a window are in time order and none is later than `now`.
pub open spec fn ordered_until(w: Seq<u128>, now: u128) -> bool {
    &&& forall|i: int, j: int| 0 <= i <= j < w.len() ==> w[i] <= w[j]
    &&& forall|i: int| 0 <= i < w.len() ==> w[i] <= now
}

/// Pruning drops the attempts that are older than sixty seconds: some prefix of the window
/// leaves it, every attempt that leaves is older than sixty seconds, and, when the attempts
/// are in time order and none lies in the future, every attempt that stays is younger.
pub proof fn law_prune_keeps_recent(w: Seq<u128>, now: u128)
    ensures
        exists|k: int|
            {
                &&& 0 <= k <= w.len()
                &&& prune(w, now) == w.skip(k)
                &&& forall|i: int| 0 <= i < k ==> expired(now, #[trigger] w[i])
                &&& ordered_until(w, now) ==> forall|i: int| k <= i < w.len() ==> !expired(now, #[trigger] w[i])
            },
    decreases w.len(),
{
    if w.len() > 0 && expired(now, w[0]) {
        let t = w.drop_first();
        law_prune_keeps_recent(t, now);
        let k = choose|k: int|
            {
                &&& 0 <= k <= t.len()
                &&& prune(t, now) == t.skip(k)
                &&& forall|i: int| 0 <= i < k ==> expired(now, #[trigger] t[i])
                &&& ordered_until(t, now) ==> forall|i: int| k <= i < t.len() ==> !expired(now, #[trigger] t[i])
            };
        assert(t.skip(k) =~= w.skip(k + 1));
        assert forall|i: int| 0 <= i < k + 1 implies expired(now, #[trigger] w[i]) by {
            if i > 0 {
                assert(w[i] == t[i - 1]);
            }
        }
        if ordered_until(w, now) {
            assert(ordered_until(t, now));
            assert forall|i: int| k + 1 <= i < w.len() implies !expired(now, #[trigger] w[i]) by {
                assert(w[i] == t[i - 1]);
            }
        }
    } else {
        assert(w.skip(0) =~= w);
        if ordered_until(w, now) && w.len() > 0 {
            assert forall|i: int| 0 <= i < w.len() implies !expired(now, #[trigger] w[i]) by {
                assert(w[0] <= w[i]);
            }
        }
    }
}

/// The window of one user after attempts at the given times, made through `check_at` from a
/// window that was empty (every attempt is recorded, allowed or not).
pub open spec fn window_after(times: Seq<u128>) -> Seq<u128>
    decreases times.len(),
{
    if times.len() == 0 {
        seq![]
    } else {
        prune(window_after(times.drop_last()), times.last()).push(times.last())
    }
}

/// Whether the `i`-th of these attempts was allowed.
pub open spec fn attempt_allowed(limit: nat, times: Seq<u128>, i: int) -> bool {
    prune(window_after(times.take(i)), times[i]).len() < limit
}

/// The allowed attempts made in the sixty seconds up to `t` (a later attempt is not counted).
pub open spec fn allowed_within(limit: nat, times: Seq<u128>, t: u128) -> Set<int> {
    Set::new(
        |i: int|
            0 <= i < times.len() && times[i] <= t && !expired(t, times[i]) && attempt_allowed(limit, times, i),
    )
}

pub open spec fn nondecreasing(times: Seq<u128>) -> bool {
    forall|i: int, j: int| 0 <= i <= j < times.len() ==> times[i] <= times[j]
}

/// After the first `i` attempts and pruning at a time `now` no earlier than the last of them,
/// the window is the attempts from some `k` on, and every attempt before `k` has expired.
proof fn lemma_window_suffix(times: Seq<u128>, i: int, now: u128) -> (k: int)
    requires
        nondecreasing(times),
        0 <= i <= times.len(),
        i > 0 ==> times[i - 1] <= now,
    ensures
        0 <= k <= i,
        prune(window_after(times.take(i)), now) == times.subrange(k, i),
        forall|j: int| 0 <= j < k ==> expired(now, #[trigger] times[j]),
        forall|j: int| k <= j < i ==> !expired(now, #[trigger] times[j]),
    decreases i,
{
    if i == 0 {
        assert(times.take(0) =~= Seq::<u128>::empty());
        assert(times.subrange(0, 0) =~= Seq::<u128>::empty());
        0
    } else {
        let last = times[i - 1];
        if i > 1 {
            assert(times[i - 2] <= last);
        }
        let k1 = lemma_window_suffix(times, i - 1, last);
        assert(times.take(i).drop_last() =~= times.take(i - 1));
        assert(times.take(i).last() == last);
        let w = times.subrange(k1, i);
        assert(window_after(times.take(i)) == prune(window_after(times.take(i - 1)), last).push(last));
        assert(window_after(times.take(i)) =~= w);
        law_prune_keeps_recent(w, now);
        let k2 = choose|k: int|
            {
                &&& 0 <= k <= w.len()
                &&& prune(w, now) == w.skip(k)
                &&& forall|x: int| 0 <= x < k ==> expired(now, #[trigger] w[x])
                &&& ordered_until(w, now) ==> forall|x: int| k <= x < w.len() ==> !expired(now, #[trigger] w[x])
            };
        assert(ordered_until(w, now)) by {
            assert forall|a: int, b: int| 0 <= a <= b < w.len() implies w[a] <= w[b] by {
                assert(w[a] == times[k1 + a] && w[b] == times[k1 + b]);
            }
            assert forall|a: int| 0 <= a < w.len() implies w[a] <= now by {
                assert(w[a] == times[k1 + a]);
                assert(times[k1 + a] <= times[i - 1]);
            }
        }
        assert forall|j: int| k1 + k2 <= j < i implies !expired(now, #[trigger] times[j]) by {
            assert(w[j - k1] == times[j]);
        }
        assert(w.skip(k2) =~= times.subrange(k1 + k2, i));
        assert forall|j: int| 0 <= j < k1 + k2 implies expired(now, #[trigger] times[j]) by {
            if j < k1 {
                assert(expired(last, times[j]));
                assert(times[j] <= last);
            } else {
                assert(w[j - k1] == times[j]);
            }
        }
        k1 + k2
    }
}

/// The earlier attempts that are still within sixty seconds of the `i`-th, allowed or not.
pub open spec fn earlier_within(times: Seq<u128>, i: int) -> Set<int> {
    Set::new(|j: int| 0 <= j < i && !expired(times[i], times[j]))
}

/// Every attempt counts, refused ones included: for one user, with attempts in time order,
/// an attempt is allowed exactly when fewer than `limit` earlier attempts were made within
/// the sixty seconds before it. In particular a limit of zero refuses every attempt.
pub proof fn law_rate_limit_counts_every_attempt(limit: nat, times: Seq<u128>, i: int)
    requires
        nondecreasing(times),
        0 <= i < times.len(),
    ensures
        earlier_within(times, i).finite(),
        attempt_allowed(limit, times, i) == (earlier_within(times, i).len() < limit),
        limit == 0 ==> !attempt_allowed(limit, times, i),
{
    if i > 0 {
        assert(times[i - 1] <= times[i]);
    }
    let k = lemma_window_suffix(times, i, times[i]);
    lemma_int_range(k, i);
    assert(earlier_within(times, i) =~= set_int_range(k, i));
}

proof fn lemma_last_allowed(limit: nat, times: Seq<u128>, t: u128, b: int) -> (m: int)
    requires
        0 <= b <= times.len(),
    ensures
        (exists|i: int| 0 <= i < b && #[trigger] allowed_within(limit, times, t).contains(i)) ==> {
            &&& 0 <= m < b
            &&& allowed_within(limit, times, t).contains(m)
            &&& forall|i: int| 0 <= i < b && #[trigger] allowed_within(limit, times, t).contains(i) ==> i <= m
        },
    decreases b,
{
    if b == 0 {
        0
    } else if allowed_within(limit, times, t).contains(b - 1) {
        b - 1
    } else {
        let m = lemma_last_allowed(limit, times, t, b - 1);
        assert forall|i: int| 0 <= i < b && #[trigger] allowed_within(limit, times, t).contains(i) implies 0 <= i < b
            - 1 by {}
        m
    }
}

/// For one user, whatever the times of the attempts (in time order), at most `limit` of the
/// attempts made within any sixty seconds are allowed.
pub proof fn law_rate_limit_bounds_each_window(limit: nat, times: Seq<u128>, t: u128)
    requires
        nondecreasing(times),
    ensures
        allowed_within(limit, times, t).finite(),
        allowed_within(limit, times, t).len() <= limit,
{
    let s = allowed_within(limit, times, t);
    let n = times.len() as int;
    let m = lemma_last_allowed(limit, times, t, n);
    if exists|i: int| 0 <= i < n && #[trigger] s.contains(i) {
        let tm = times[m];
        let k = lemma_window_suffix(times, m, tm);
        assert(times.take(m + 1).take(m) =~= times.take(m));
        assert(prune(window_after(times.take(m)), tm).len() == m - k);
        assert(m - k < limit);
        lemma_int_range(k, m + 1);
        assert forall|i: int| s.contains(i) implies set_int_range(k, m + 1).contains(i) by {
            assert(i <= m);
            if i < k {
                assert(expired(tm, times[i]));
                assert(times[i] <= tm);
                assert(tm <= t);
            }
        }
        lemma_len_subset(s, set_int_range(k, m + 1));
    } else {
        assert(s =~= Set::<int>::empty());
    }
}

/// Users do not share a window: an attempt by one user leaves every other user's window as it was.
pub proof fn law_rate_limit_users_independent(
    before: Map<Seq<char>, Seq<u128>>,
    user: Seq<char>,
    other: Seq<char>,
    w: Seq<u128>,
)
    requires
        user != other,
    ensures
        before.insert(user, w).contains_key(other) == before.contains_key(other),
        before.contains_key(other) ==> before.insert(user, w)[other] == before[other],
{
}

proof fn lemma_first_at_bounds(seen: Seq<Seq<char>>, id: Seq<char>, k: int)
    requires
        0 <= k,
    ensures
        k <= first_at(seen, id, k) || k > seen.len(),
        first_at(seen, id, k) <= seen.len(),
        first_at(seen, id, k) < seen.len() ==> seen[first_at(seen, id, k)] == id,
        forall|j: int| k <= j < first_at(seen, id, k) ==> seen[j] != id,
        (exists|j: int| k <= j < seen.len() && seen[j] == id) ==> first_at(seen, id, k) < seen.len(),
    decreases seen.len() - k,
{
    if k < seen.len() && seen[k] != id {
        lemma_first_at_bounds(seen, id, k + 1);
        if exists|j: int| k <= j < seen.len() && seen[j] == id {
            let j = choose|j: int| k <= j < seen.len() && seen[j] == id;
            assert(k + 1 <= j);
        }
    }
}

/// When the id is remembered, where it is found: a position that holds it.
proof fn lemma_hit_position(seen: Seq<Seq<char>>, id: Seq<char>)
    requires
        seen.contains(id),
    ensures
        0 <= first_at(seen, id, 0) < seen.len(),
        seen[first_at(seen, id, 0)] == id,
{
    lemma_first_at_bounds(seen, id, 0);
}

/// A message id just reported, new or not, is the most recently used one: it is remembered
/// at the most recent end, and it is reported as a duplicate the next time it comes.
pub proof fn law_dedup_repeat_is_duplicate(seen: Seq<Seq<char>>, capacity: nat, id: Seq<char>)
    ensures
        dedup_step(seen, capacity, id).1.last() == id,
        dedup_step(dedup_step(seen, capacity, id).1, capacity, id).0,
{
    let after = dedup_step(seen, capacity, id).1;
    assert(after[after.len() - 1] == id);
}

/// The de-duplicator never remembers more than its capacity (or one id, when the capacity is zero).
pub proof fn law_dedup_bounded(seen: Seq<Seq<char>>, capacity: nat, id: Seq<char>)
    requires
        seen.len() <= if capacity == 0 { 1 } else { capacity },
    ensures
        dedup_step(seen, capacity, id).1.len() <= if capacity == 0 { 1 } else { capacity },
{
    if seen.contains(id) {
        lemma_hit_position(seen, id);
    }
}

/// The ids remembered stay distinct; a duplicate leaves the set of remembered ids as it was;
/// a new id is added, and an older one is dropped only when the memory was full.
pub proof fn law_dedup_ids_distinct(seen: Seq<Seq<char>>, capacity: nat, id: Seq<char>)
    requires
        seen.no_duplicates(),
    ensures
        dedup_step(seen, capacity, id).1.no_duplicates(),
        dedup_step(seen, capacity, id).0 ==> dedup_step(seen, capacity, id).1.to_set() == seen.to_set(),
        !dedup_step(seen, capacity, id).0 ==> dedup_step(seen, capacity, id).1.contains(id),
        !dedup_step(seen, capacity, id).0 && seen.len() < capacity ==> dedup_step(seen, capacity, id).1 == seen.push(id),
        !dedup_step(seen, capacity, id).0 && seen.len() >= capacity && seen.len() > 0 ==> dedup_step(seen, capacity, id).1
            == seen.drop_first().push(id),
{
    let after = dedup_step(seen, capacity, id).1;
    assert(after[after.len() - 1] == id);
    if seen.contains(id) {
        lemma_hit_position(seen, id);
        let i = first_at(seen, id, 0);
        let r = seen.remove(i);
        assert(after =~= r.push(id));
        assert forall|a: int, b: int| 0 <= a < b < r.len() implies r[a] != r[b] by {
            let sa = if a < i { a } else { a + 1 };
            let sb = if b < i { b } else { b + 1 };
            assert(r[a] == seen[sa] && r[b] == seen[sb]);
        }
        assert forall|a: int| 0 <= a < r.len() implies r[a] != id by {
            let sa = if a < i { a } else { a + 1 };
            assert(r[a] == seen[sa]);
        }
        assert forall|a: int, b: int| 0 <= a < b < after.len() implies after[a] != after[b] by {
            if b < r.len() {
                assert(after[a] == r[a] && after[b] == r[b]);
            } else {
                assert(after[a] == r[a]);
            }
        }
        assert(after.to_set() =~= seen.to_set()) by {
            assert forall|x: Seq<char>| after.to_set().contains(x) implies seen.to_set().contains(x) by {
                let j = choose|j: int| 0 <= j < after.len() && after[j] == x;
                if j < r.len() {
                    let sj = if j < i { j } else { j + 1 };
                    assert(seen[sj] == x);
                } else {
                    assert(seen[i] == x);
                }
            }
            assert forall|x: Seq<char>| seen.to_set().contains(x) implies after.to_set().contains(x) by {
                let j = choose|j: int| 0 <= j < seen.len() && seen[j] == x;
                if j == i {
                    assert(after[after.len() - 1] == x);
                } else if j < i {
                    assert(after[j] == x);
                } else {
                    assert(after[j - 1] == x);
                }
            }
        }
    } else if seen.len() >= capacity && seen.len() > 0 {
        let d = seen.drop_first();
        assert forall|a: int, b: int| 0 <= a < b < after.len() implies after[a] != after[b] by {
            if b < d.len() {
                assert(after[a] == seen[a + 1] && after[b] == seen[b + 1]);
            } else {
                assert(after[a] == seen[a + 1]);
            }
        }
    } else {
        assert forall|a: int, b: int| 0 <= a < b < after.len() implies after[a] != after[b] by {
            if b < seen.len() {
                assert(after[a] == seen[a] && after[b] == seen[b]);
            } else {
                assert(after[a] == seen[a]);
            }
        }
    }
}

/// The ids remembered after a series of checks, from a fresh de-duplicator.
pub open spec fn dedup_run(capacity: nat, ids: Seq<Seq<char>>) -> Seq<Seq<char>>
    decreases ids.len(),
{
    if ids.len() == 0 {
        seq![]
    } else {
        dedup_step(dedup_run(capacity, ids.drop_last()), capacity, ids.last()).1
    }
}

/// The distinct ids of a series, least recently used first (as a de-duplicator that never
/// forgets would hold them).
pub open spec fn by_last_use(ids: Seq<Seq<char>>) -> Seq<Seq<char>>
    decreases ids.len(),
{
    if ids.len() == 0 {
        seq![]
    } else {
        let r = by_last_use(ids.drop_last());
        dedup_step(r, r.len() + 1, ids.last()).1
    }
}

/// The `capacity` most recently used of them (all, when there are no more).
pub open spec fn most_recent(r: Seq<Seq<char>>, capacity: nat) -> Seq<Seq<char>> {
    if r.len() <= capacity {
        r
    } else {
        r.skip(r.len() - capacity)
    }
}

proof fn lemma_by_last_use_distinct(ids: Seq<Seq<char>>)
    ensures
        by_last_use(ids).no_duplicates(),
    decreases ids.len(),
{
    if ids.len() > 0 {
        let r = by_last_use(ids.drop_last());
        lemma_by_last_use_distinct(ids.drop_last());
        law_dedup_ids_distinct(r, r.len() + 1, ids.last());
    }
}

proof fn lemma_first_in_distinct(s: Seq<Seq<char>>, x: Seq<char>, p: int)
    requires
        s.no_duplicates(),
        0 <= p < s.len(),
        s[p] == x,
    ensures
        first_at(s, x, 0) == p,
{
    assert forall|j: int| 0 <= j < p implies s[j] != x by {
        assert(s[j] != s[p]);
    }
    lemma_first_at_found(s, x, p);
}

/// The de-duplicator is a least-recently-used memory: after any series of checks, it holds
/// the `capacity` most recently used distinct ids, least recent first; so an id is reported
/// as a duplicate exactly when it is among them.
pub proof fn law_dedup_is_lru(capacity: nat, ids: Seq<Seq<char>>, next: Seq<char>)
    requires
        capacity >= 1,
    ensures
        dedup_run(capacity, ids) == most_recent(by_last_use(ids), capacity),
        dedup_step(dedup_run(capacity, ids), capacity, next).0 == most_recent(by_last_use(ids), capacity).contains(next),
    decreases ids.len(),
{
    if ids.len() > 0 {
        let prev = ids.drop_last();
        let x = ids.last();
        law_dedup_is_lru(capacity, prev, x);
        lemma_by_last_use_distinct(prev);
        let r = by_last_use(prev);
        let n = r.len() as int;
        let o: int = if n <= capacity { 0 } else { n - capacity };
        let sv = most_recent(r, capacity);
        assert(sv =~= r.skip(o));
        let r2 = by_last_use(ids);
        assert(r2 == dedup_step(r, r.len() + 1, x).1);
        if r.contains(x) {
            let p = choose|p: int| 0 <= p < n && r[p] == x;
            lemma_first_in_distinct(r, x, p);
            assert(r2 =~= r.remove(p).push(x));
            assert(most_recent(r2, capacity) =~= r2.skip(o));
            if p >= o {
                assert(sv[p - o] == x);
                assert(sv.no_duplicates()) by {
                    assert forall|a: int, b: int| 0 <= a < b < sv.len() implies sv[a] != sv[b] by {
                        assert(sv[a] == r[a + o] && sv[b] == r[b + o]);
                    }
                }
                lemma_first_in_distinct(sv, x, p - o);
                assert(sv.contains(x));
                assert(dedup_step(sv, capacity, x).1 =~= sv.remove(p - o).push(x));
                assert(r2.skip(o) =~= sv.remove(p - o).push(x));
            } else {
                assert(!sv.contains(x)) by {
                    if sv.contains(x) {
                        let q = choose|q: int| 0 <= q < sv.len() && sv[q] == x;
                        assert(r[q + o] == r[p]);
                    }
                }
                assert(sv.len() == capacity);
                assert(dedup_step(sv, capacity, x).1 =~= sv.drop_first().push(x));
                assert(r2.skip(o) =~= sv.drop_first().push(x));
            }
        } else {
            assert(!sv.contains(x)) by {
                if sv.contains(x) {
                    let q = choose|q: int| 0 <= q < sv.len() && sv[q] == x;
                    assert(r[q + o] == x);
                }
            }
            assert(r2 =~= r.push(x));
            if n < capacity {
                assert(most_recent(r2, capacity) =~= r.push(x));
                assert(dedup_step(sv, capacity, x).1 =~= r.push(x));
            } else {
                let o2 = n + 1 - capacity;
                assert(most_recent(r2, capacity) =~= r2.skip(o2));
                assert(dedup_step(sv, capacity, x).1 =~= sv.drop_first().push(x));
                assert(r2.skip(o2) =~= sv.drop_first().push(x));
            }
        }
    } else {
        assert(by_last_use(ids) =~= Seq::<Seq<char>>::empty());
    }
}

/// An id is forgotten once `capacity` other new ids have arrived after it:
/// when the memory is full and `id` is its oldest entry, one more new id evicts it.
pub proof fn law_dedup_evicts_oldest(seen: Seq<Seq<char>>, capacity: nat, newer: Seq<char>)
    requires
        capacity > 0,
        seen.len() == capacity,
        seen.no_duplicates(),
        !seen.contains(newer),
    ensures
        !dedup_step(seen, capacity, newer).1.contains(seen[0]),
{
    let after = dedup_step(seen, capacity, newer).1;
    assert(after =~= seen.drop_first().push(newer));
    if after.contains(seen[0]) {
        let j = choose|j: int| 0 <= j < after.len() && after[j] == seen[0];
        if j < after.len() - 1 {
            assert(seen[j + 1] == seen[0]);
        }
    }
}

/// The state of one chat after `n` bot messages in a row, starting from `count`.
pub open spec fn bot_run(count: nat, n: nat, threshold: nat) -> (bool, nat)
    decreases n,
{
    if n == 0 {
        (false, count)
    } else {
        loop_step(bot_run(count, (n - 1) as nat, threshold).1, true, threshold)
    }
}

/// After a human message, the `n`-th bot message in a row is reported as a loop exactly when
/// `n` reaches the threshold.
pub proof fn law_loop_detected_at_threshold(n: nat, threshold: nat)
    requires
        n >= 1,
    ensures
        bot_run(loop_step(0, false, threshold).1, n, threshold) == (n >= threshold, n),
    decreases n,
{
    assert(loop_step(0, false, threshold).1 == 0);
    if n > 1 {
        law_loop_detected_at_threshold((n - 1) as nat, threshold);
        assert(bot_run(0, n, threshold) == loop_step(bot_run(0, (n - 1) as nat, threshold).1, true, threshold));
    } else {
        assert(bot_run(0, 0, threshold) == (false, 0nat));
        assert(bot_run(0, 1, threshold) == loop_step(0, true, threshold));
    }
}

/// A chat's count after a series of messages (`true` for a bot's), starting from `count`.
pub open spec fn loop_run(count: nat, events: Seq<bool>, threshold: nat) -> nat
    decreases events.len(),
{
    if events.len() == 0 {
        count
    } else {
        loop_step(loop_run(count, events.drop_last(), threshold), events.last(), threshold).1
    }
}

/// How many bot messages end the series, since its last human message (or its start).
pub open spec fn trailing_bots(events: Seq<bool>) -> nat
    decreases events.len(),
{
    if events.len() == 0 {
        0
    } else if events.last() {
        trailing_bots(events.drop_last()) + 1
    } else {
        0
    }
}

/// For a chat first seen (or reset) before a series of messages: its count is the number of
/// bot messages since the last human one, and each message is reported as a loop exactly when
/// it is a bot's and that number, itself included, reaches the threshold.
pub proof fn law_loop_counts_trailing_bots(events: Seq<bool>, threshold: nat)
    ensures
        loop_run(0, events, threshold) == trailing_bots(events),
        events.len() > 0 ==> loop_step(loop_run(0, events.drop_last(), threshold), events.last(), threshold).0 == (
        events.last() && trailing_bots(events) >= threshold),
    decreases events.len(),
{
    if events.len() > 0 {
        law_loop_counts_trailing_bots(events.drop_last(), threshold);
    }
}

/// A human message is never a loop and starts the count afresh.
pub proof fn law_human_message_resets(count: nat, threshold: nat)
    ensures
        loop_step(count, false, threshold) == (false, 0nat),
{
}

} // verus!
