//! State of the chat front end that does not touch the terminal: messages, the scroll
//! viewport, input history, the two-press Ctrl+C rule and streamed-token markers.

use std::time::Instant;
use vstd::prelude::*;

use crate::clock::{elapsed_nanos, instant_now};

use crate::text::{chars_of, has_prefix, slice_chars, starts_with, string_of, trim_spec, trim_chars, str_eq};

verus! {

#[derive(Debug, Clone, Copy, PartialEq, Eq)]
pub enum CtrlCAction {
    Quit,
    CancelStream,
    ShowHint,
}

#[derive(Debug, Clone, Copy, PartialEq, Eq)]
pub enum AppState {
    Idle,
    Waiting,
    Streaming,
    Overlay,
}

#[derive(Debug, Clone)]
pub struct Message {
    pub role: String,
    pub content: String,
    pub collapsed: bool,
    /// Elapsed time in milliseconds for this response (assistant messages only).
    pub elapsed_ms: Option<u64>,
}

impl Message {
    pub fn user(content: String) -> (m: Self)
        ensures
            m.role@ == "user"@,
            m.content == content,
            !m.collapsed,
            m.elapsed_ms is None,
    {
        Message { role: String::from_str("user"), content, collapsed: false, elapsed_ms: None }
    }

    pub fn assistant(content: String) -> (m: Self)
        ensures
            m.role@ == "assistant"@,
            m.content == content,
            !m.collapsed,
            m.elapsed_ms is None,
    {
        Message { role: String::from_str("assistant"), content, collapsed: false, elapsed_ms: None }
    }
}

/// `a.saturating_add(b)` for `usize`.
pub open spec fn sat_add(a: usize, b: usize) -> usize {
    if a + b > usize::MAX { usize::MAX } else { (a + b) as usize }
}

/// `a.saturating_sub(b)` for `usize`.
pub open spec fn sat_sub(a: usize, b: usize) -> usize {
    if a < b { 0 } else { (a - b) as usize }
}

pub fn saturating_add(a: usize, b: usize) -> (r: usize)
    ensures
        r == sat_add(a, b),
{
    if a > usize::MAX - b { usize::MAX } else { a + b }
}

pub fn saturating_sub(a: usize, b: usize) -> (r: usize)
    ensures
        r == sat_sub(a, b),
{
    if a < b { 0 } else { a - b }
}

/// Scroll viewport for message list. Tracks how many lines the user
/// has scrolled back from the bottom. 0 = at bottom (auto-scroll).
#[derive(Debug, Clone)]
pub struct Viewport {
    /// Lines scrolled above the visible area. 0 means showing the bottom.
    pub scroll_offset: usize,
    /// True when following new content automatically.
    pub auto_scroll: bool,
    /// Count of new messages that arrived while user was scrolled up.
    pub unseen_count: usize,
}

impl Viewport {
    pub fn new() -> (v: Self)
        ensures
            v.scroll_offset == 0,
            v.auto_scroll,
            v.unseen_count == 0,
    {
        Viewport { scroll_offset: 0, auto_scroll: true, unseen_count: 0 }
    }

    /// Call when user manually scrolls up.
    pub fn scroll_up(&mut self, lines: usize)
        ensures
            !final(self).auto_scroll,
            final(self).scroll_offset == sat_add(old(self).scroll_offset, lines),
            final(self).unseen_count == old(self).unseen_count,
    {
        self.auto_scroll = false;
        self.scroll_offset = saturating_add(self.scroll_offset, lines);
    }

    /// Call when user manually scrolls down.
    pub fn scroll_down(&mut self, lines: usize)
        ensures
            final(self).scroll_offset == sat_sub(old(self).scroll_offset, lines),
            final(self).scroll_offset == 0 ==> final(self).auto_scroll && final(self).unseen_count == 0,
            final(self).scroll_offset != 0 ==> final(self).auto_scroll == old(self).auto_scroll
                && final(self).unseen_count == old(self).unseen_count,
    {
        self.scroll_offset = saturating_sub(self.scroll_offset, lines);
        if self.scroll_offset == 0 {
            self.auto_scroll = true;
            self.unseen_count = 0;
        }
    }

    /// Call when new content is added (message sent, streaming token).
    pub fn content_added(&mut self)
        ensures
            final(self).scroll_offset == old(self).scroll_offset,
            final(self).auto_scroll == old(self).auto_scroll,
            final(self).unseen_count == if old(self).auto_scroll {
                old(self).unseen_count
            } else {
                sat_add(old(self).unseen_count, 1)
            },
    {
        if !self.auto_scroll {
            self.unseen_count = saturating_add(self.unseen_count, 1);
        }
    }

    pub fn jump_to_bottom(&mut self)
        ensures
            final(self).scroll_offset == 0,
            final(self).auto_scroll,
            final(self).unseen_count == 0,
    {
        self.scroll_offset = 0;
        self.auto_scroll = true;
        self.unseen_count = 0;
    }
}

/// Scrolling up and then down by the same amount returns to the same offset
/// (unless the offset was saturated at its largest value).
pub proof fn law_scroll_up_down_restores(offset: usize, lines: usize)
    requires
        offset + lines <= usize::MAX,
    ensures
        sat_sub(sat_add(offset, lines), lines) == offset,
{
}

/// Scrolling down by at least the current offset always lands at the bottom.
pub proof fn law_scroll_down_reaches_bottom(offset: usize, lines: usize)
    requires
        lines >= offset,
    ensures
        sat_sub(offset, lines) == 0,
{
}

/// Which way to move through the input history.
#[derive(Debug, Clone, Copy, PartialEq, Eq)]
pub enum HistoryDirection {
    Prev,
    Next,
}

/// The history position after moving one step in `dir` from `idx` in a history of `len` entries
/// (`None` is the fresh, empty input line).
pub open spec fn history_step(len: nat, idx: Option<usize>, dir: HistoryDirection) -> Option<int> {
    match dir {
        HistoryDirection::Prev => match idx {
            None => Some(if len == 0 { 0 } else { len - 1 }),
            Some(i) => Some(if i == 0 { 0 } else { i - 1 }),
        },
        HistoryDirection::Next => match idx {
            None => None,
            Some(i) => if i + 1 >= len { None } else { Some(i + 1) },
        },
    }
}

/// The history position after a step, for a non-empty history.
pub fn next_history_index(len: usize, idx: Option<usize>, dir: HistoryDirection) -> (r: Option<usize>)
    ensures
        match r {
            Some(i) => history_step(len as nat, idx, dir) == Some(i as int),
            None => history_step(len as nat, idx, dir) is None,
        },
{
    match dir {
        HistoryDirection::Prev => match idx {
            None => Some(if len == 0 { 0 } else { len - 1 }),
            Some(i) => Some(if i == 0 { 0 } else { i - 1 }),
        },
        HistoryDirection::Next => match idx {
            None => None,
            Some(i) => if i >= len || i + 1 >= len { None } else { Some(i + 1) },
        },
    }
}

/// The input line after moving through the history: the entry at the new position,
/// or an empty line when the position is past the newest entry.
pub fn navigate_history(history: &Vec<String>, idx: Option<usize>, dir: HistoryDirection) -> (r: (
    Option<usize>,
    String,
))
    ensures
        history@.len() == 0 ==> r.0 == idx && r.1@ == Seq::<char>::empty(),
        history@.len() > 0 ==> match r.0 {
            Some(i) => history_step(history@.len(), idx, dir) == Some(i as int) && r.1@ == if i
                < history@.len() {
                history@[i as int]@
            } else {
                Seq::<char>::empty()
            },
            None => history_step(history@.len(), idx, dir) is None && r.1@ == Seq::<char>::empty(),
        },
{
    if history.len() == 0 {
        return (idx, String::new());
    }
    let next = next_history_index(history.len(), idx, dir);
    match next {
        Some(i) => {
            if i < history.len() {
                (Some(i), history[i].clone())
            } else {
                (Some(i), String::new())
            }
        },
        None => (None, String::new()),
    }
}



/// Two Ctrl+C presses closer together than this many nanoseconds (two seconds) quit.
pub const CTRL_C_WINDOW_NANOS: u128 = 2_000_000_000;

/// The decision for a Ctrl+C press at `now`, given the time of the last recorded press:
/// cancel a running stream; quit when the last press was less than two seconds ago;
/// otherwise show a hint and record this press.
pub open spec fn ctrl_c_step(streaming: bool, last: Option<u128>, now: u128) -> (CtrlCAction, Option<u128>) {
    if streaming {
        (CtrlCAction::CancelStream, last)
    } else if last matches Some(l) && (if now >= l { now - l } else { 0 }) < CTRL_C_WINDOW_NANOS {
        (CtrlCAction::Quit, last)
    } else {
        (CtrlCAction::ShowHint, Some(now))
    }
}

/// Two-press Ctrl+C pattern: first press cancels streaming or shows hint,
/// second press within 2 seconds quits.
pub struct CtrlCTracker {
    last_press: Option<u128>,
    start: Instant,
}

impl CtrlCTracker {
    /// When the last press that showed the hint happened, in nanoseconds since creation.
    pub closed spec fn last_press(&self) -> Option<u128> {
        self.last_press
    }

    pub fn new() -> (r: Self)
        ensures
            r.last_press() is None,
    {
        CtrlCTracker { last_press: None, start: instant_now() }
    }

    /// The decision for a press at `now` (nanoseconds since creation).
    pub fn press_at(&mut self, streaming: bool, now: u128) -> (a: CtrlCAction)
        ensures
            (a, final(self).last_press()) == ctrl_c_step(streaming, old(self).last_press(), now),
    {
        if streaming {
            return CtrlCAction::CancelStream;
        }
        if let Some(l) = self.last_press {
            let since = if now >= l { now - l } else { 0 };
            if since < CTRL_C_WINDOW_NANOS {
                return CtrlCAction::Quit;
            }
        }
        self.last_press = Some(now);
        CtrlCAction::ShowHint
    }

    /// The decision for a press now; the time is read from the clock.
    pub fn press(&mut self, streaming: bool) -> (a: CtrlCAction)
        ensures
            exists|now: u128| (a, final(self).last_press()) == ctrl_c_step(streaming, old(self).last_press(), now),
    {
        let now = elapsed_nanos(&self.start);
        self.press_at(streaming, now)
    }
}

/// A second press within two seconds of a press that showed the hint quits.
pub proof fn law_double_ctrl_c_quits(last: Option<u128>, t1: u128, t2: u128)
    requires
        t1 <= t2 < t1 + CTRL_C_WINDOW_NANOS,
        ctrl_c_step(false, last, t1).0 == CtrlCAction::ShowHint,
    ensures
        ctrl_c_step(false, ctrl_c_step(false, last, t1).1, t2).0 == CtrlCAction::Quit,
{
}

/// While a response streams, Ctrl+C only cancels it and leaves the record of presses alone.
pub proof fn law_ctrl_c_while_streaming(last: Option<u128>, now: u128)
    ensures
        ctrl_c_step(true, last, now) == (CtrlCAction::CancelStream, last),
{
}

/// A streamed token, sorted by the marker the agent loop puts in front of it.
#[derive(Debug, Clone)]
pub enum StreamToken {
    /// Model reasoning shown collapsed under the role "thinking".
    Thinking(String),
    /// A tool call shown collapsed under the role "tool_call".
    ToolCall(String),
    /// A tool result shown collapsed under the role "tool_result".
    ToolResult(String),
    /// Ordinary response text, appended to the streamed answer.
    Text(String),
}

pub const THINK_MARKER: &'static str = "\u{1}THINK\u{2}";
pub const CALL_MARKER: &'static str = "\u{1}CALL\u{2}";
pub const RESULT_MARKER: &'static str = "\u{1}RESULT\u{2}";

/// How a streamed token is sorted: a token that starts with a marker carries the rest after it.
pub open spec fn token_spec(t: StreamToken, token: Seq<char>) -> bool {
    if has_prefix(token, THINK_MARKER@) {
        t matches StreamToken::Thinking(c) && c@ == token.skip(THINK_MARKER@.len() as int)
    } else if has_prefix(token, CALL_MARKER@) {
        t matches StreamToken::ToolCall(c) && c@ == token.skip(CALL_MARKER@.len() as int)
    } else if has_prefix(token, RESULT_MARKER@) {
        t matches StreamToken::ToolResult(c) && c@ == token.skip(RESULT_MARKER@.len() as int)
    } else {
        t matches StreamToken::Text(c) && c@ == token
    }
}

fn strip_marker(v: &Vec<char>, marker: &str) -> (r: Option<String>)
    ensures
        has_prefix(v@, marker@) ==> (r matches Some(c) && c@ == v@.skip(marker@.len() as int)),
        !has_prefix(v@, marker@) ==> r is None,
{
    if starts_with(v, marker) {
        let m = chars_of(marker);
        let rest = slice_chars(v, m.len(), v.len());
        assert(rest@ =~= v@.skip(marker@.len() as int));
        Some(string_of(&rest))
    } else {
        None
    }
}

/// Sort a streamed token by its marker.
pub fn classify_stream_token(token: &str) -> (t: StreamToken)
    ensures
        token_spec(t, token@),
{
    let v = chars_of(token);
    if let Some(c) = strip_marker(&v, THINK_MARKER) {
        return StreamToken::Thinking(c);
    }
    if let Some(c) = strip_marker(&v, CALL_MARKER) {
        return StreamToken::ToolCall(c);
    }
    if let Some(c) = strip_marker(&v, RESULT_MARKER) {
        return StreamToken::ToolResult(c);
    }
    StreamToken::Text(String::from_str(token))
}

/// Estimated tokens in a streamed buffer of `bytes` bytes: one per four bytes, rounded up.
pub fn estimate_tokens(bytes: usize) -> (n: usize)
    ensures
        n * 4 >= bytes,
        n * 4 < bytes + 4,
{
    bytes / 4 + if bytes % 4 == 0 { 0 } else { 1 }
}

/// What pressing Enter on the input line does.
#[derive(Debug, Clone)]
pub enum Submission {
    /// Nothing is sent: the line is blank.
    Empty,
    /// A slash command to run, as trimmed.
    Command(String),
    /// A message to send, as trimmed.
    Message(String),
}

/// Pressing Enter: the trimmed line is sent; one that starts with `/` but not `//` is a command.
pub fn classify_submission(line: &str) -> (r: Submission)
    ensures
        trim_spec(line@).len() == 0 ==> r is Empty,
        trim_spec(line@).len() > 0 && has_prefix(trim_spec(line@), "/"@) && !has_prefix(trim_spec(line@), "//"@)
            ==> (r matches Submission::Command(c) && c@ == trim_spec(line@)),
        trim_spec(line@).len() > 0 && !(has_prefix(trim_spec(line@), "/"@) && !has_prefix(trim_spec(line@), "//"@))
            ==> (r matches Submission::Message(c) && c@ == trim_spec(line@)),
{
    let v = chars_of(line);
    let t = trim_chars(&v);
    if t.len() == 0 {
        return Submission::Empty;
    }
    let text = string_of(&t);
    if starts_with(&t, "/") && !starts_with(&t, "//") {
        Submission::Command(text)
    } else {
        Submission::Message(text)
    }
}

/// Adds a sent line to the history, unless it repeats the newest entry.
pub fn record_history(history: &mut Vec<String>, text: String)
    ensures
        old(history)@.len() > 0 && old(history)@.last()@ == text@ ==> final(history)@ == old(history)@,
        !(old(history)@.len() > 0 && old(history)@.last()@ == text@) ==> final(history)@ == old(history)@.push(text),
{
    if history.len() > 0 && str_eq(history[history.len() - 1].as_str(), text.as_str()) {
        return;
    }
    history.push(text);
}

} // verus!
