//! What a key press does in the chat front end: the decision, and the changes to the
//! messages, the history search and the command palette that follow from it.

use vstd::prelude::*;

use crate::app_state::{classify_submission, HistoryDirection, Message, Submission};
use crate::keys::{Action, KeyCode, KeyModifiers};
use crate::render_text::byte_len;
use crate::text::{
    append_str, chars_of, find_chars, find_spec, has_prefix, is_whitespace, is_ws, lemma_trail_ws_bound, lowercase,
    slice_chars, str_eq, string_of, to_lowercase, trail_ws_count, trim_end_spec, trim_spec,
};
use vstd::string::StringSliceAdditionalSpecFns;
use vstd::utf8::{decode_utf8, encode_utf8, encode_utf8_decode_utf8, is_char_boundary};

verus! {

/// What the front end does for a key press.
pub enum KeyPlan {
    /// Apply the two-press Ctrl+C rule.
    CtrlC,
    /// Quit at once.
    Quit,
    /// Put the highlighted history-search match into the input and leave the search.
    PickHistoryMatch,
    /// Put the highlighted palette command into the input.
    PickPaletteItem,
    /// Send the trimmed line as a slash command.
    SubmitCommand(String),
    /// Send the trimmed line as a message.
    SubmitMessage(String),
    /// Move the highlight among history-search matches.
    CycleHistorySearch(i32),
    /// Move the highlight among palette commands.
    CyclePalette(i32),
    /// Move the highlight among palette commands and put the highlighted one into the input.
    CompleteFromPalette,
    /// Recall an older or newer history entry.
    NavigateHistory(HistoryDirection),
    /// Scroll the messages up by this many lines (following new content stops).
    ScrollUp(usize),
    /// Scroll the messages down by this many lines.
    ScrollDown(usize),
    /// Insert a line break into the input.
    InsertNewline,
    /// Leave the history search with an empty input.
    CloseHistorySearch,
    /// Close the palette with an empty input.
    ClosePalette,
    /// Hand the key to the input box; the palette highlight goes back to the first entry when
    /// `reset_selection` holds.
    TypeKey { reset_selection: bool },
    /// Edit the input in the external editor.
    ExternalEditor,
    /// Turn the history search on or off.
    ToggleHistorySearch,
    /// Complete the path the input ends with.
    CompletePath,
    /// Fold or unfold the thinking and tool messages of the last turn.
    ToggleThinking,
    /// Nothing happens.
    Nothing,
}

/// Lines moved by one scroll key.
pub const SCROLL_STEP: usize = 25;

/// The plan for a key press, from the action it is bound to, the key itself, whether the
/// history search is on, whether the palette shows, and the input line.
pub open spec fn key_plan_spec(
    p: KeyPlan,
    action: Action,
    code: KeyCode,
    searching: bool,
    palette: bool,
    line: Seq<char>,
) -> bool {
    let t = trim_spec(line);
    match action {
        Action::Quit | Action::CancelStream => p is CtrlC,
        Action::Send => if searching {
            p is PickHistoryMatch
        } else if palette {
            p is PickPaletteItem
        } else if t.len() == 0 {
            p is Nothing
        } else if has_prefix(t, "/"@) && !has_prefix(t, "//"@) {
            p matches KeyPlan::SubmitCommand(c) && c@ == t
        } else {
            p matches KeyPlan::SubmitMessage(m) && m@ == t
        },
        Action::HistoryUp => if searching {
            p == KeyPlan::CycleHistorySearch(-1i32)
        } else if palette {
            p == KeyPlan::CyclePalette(-1i32)
        } else {
            p == KeyPlan::NavigateHistory(HistoryDirection::Prev)
        },
        Action::HistoryDown => if searching {
            p == KeyPlan::CycleHistorySearch(1)
        } else if palette {
            p == KeyPlan::CyclePalette(1)
        } else {
            p == KeyPlan::NavigateHistory(HistoryDirection::Next)
        },
        Action::ScrollUp => p == KeyPlan::ScrollUp(SCROLL_STEP),
        Action::ScrollDown => p == KeyPlan::ScrollDown(SCROLL_STEP),
        Action::Redraw => p is Nothing,
        Action::Newline => p is InsertNewline,
        Action::Noop => if code == KeyCode::Esc && searching {
            p is CloseHistorySearch
        } else if code == KeyCode::Esc && palette {
            p is ClosePalette
        } else {
            p == KeyPlan::TypeKey { reset_selection: code != KeyCode::Up && code != KeyCode::Down }
        },
        Action::ExternalEditor => p is ExternalEditor,
        Action::HistorySearch => p is ToggleHistorySearch,
        Action::Autocomplete => if searching {
            p == KeyPlan::CycleHistorySearch(1)
        } else if palette {
            p is CompleteFromPalette
        } else {
            p is CompletePath
        },
        Action::ToggleThinking => p is ToggleThinking,
        Action::DismissOverlay | Action::ConfirmOverlay | Action::NavigateLeft | Action::NavigateRight => p is Nothing,
    }
}

/// The plan for a key press bound to `action` (see `key_plan_spec`).
pub fn plan_key(action: Action, code: KeyCode, searching: bool, palette: bool, line: &str) -> (p: KeyPlan)
    ensures
        key_plan_spec(p, action, code, searching, palette, line@),
{
    match action {
        Action::Quit | Action::CancelStream => KeyPlan::CtrlC,
        Action::Send => {
            if searching {
                KeyPlan::PickHistoryMatch
            } else if palette {
                KeyPlan::PickPaletteItem
            } else {
                match classify_submission(line) {
                    Submission::Empty => KeyPlan::Nothing,
                    Submission::Command(c) => KeyPlan::SubmitCommand(c),
                    Submission::Message(m) => KeyPlan::SubmitMessage(m),
                }
            }
        },
        Action::HistoryUp => {
            if searching {
                KeyPlan::CycleHistorySearch(-1i32)
            } else if palette {
                KeyPlan::CyclePalette(-1)
            } else {
                KeyPlan::NavigateHistory(HistoryDirection::Prev)
            }
        },
        Action::HistoryDown => {
            if searching {
                KeyPlan::CycleHistorySearch(1)
            } else if palette {
                KeyPlan::CyclePalette(1)
            } else {
                KeyPlan::NavigateHistory(HistoryDirection::Next)
            }
        },
        Action::ScrollUp => KeyPlan::ScrollUp(SCROLL_STEP),
        Action::ScrollDown => KeyPlan::ScrollDown(SCROLL_STEP),
        Action::Redraw => KeyPlan::Nothing,
        Action::Newline => KeyPlan::InsertNewline,
        Action::Noop => {
            let esc = match code {
                KeyCode::Esc => true,
                _ => false,
            };
            if esc && searching {
                KeyPlan::CloseHistorySearch
            } else if esc && palette {
                KeyPlan::ClosePalette
            } else {
                let arrow = match code {
                    KeyCode::Up => true,
                    KeyCode::Down => true,
                    _ => false,
                };
                KeyPlan::TypeKey { reset_selection: !arrow }
            }
        },
        Action::ExternalEditor => KeyPlan::ExternalEditor,
        Action::HistorySearch => KeyPlan::ToggleHistorySearch,
        Action::Autocomplete => {
            if searching {
                KeyPlan::CycleHistorySearch(1)
            } else if palette {
                KeyPlan::CompleteFromPalette
            } else {
                KeyPlan::CompletePath
            }
        },
        Action::ToggleThinking => KeyPlan::ToggleThinking,
        Action::DismissOverlay | Action::ConfirmOverlay | Action::NavigateLeft | Action::NavigateRight => KeyPlan::Nothing,
    }
}

/// Lines moved by a page key of the plain input handler.
pub const PAGE_STEP: usize = 10;

/// The plan for a key press of the plain input handler, which knows no bindings: Ctrl+C quits,
/// Ctrl+L redraws, Enter sends, the arrows recall history, the page keys scroll by ten lines,
/// and any other key goes to the input box.
pub open spec fn basic_plan_spec(p: KeyPlan, code: KeyCode, control: bool, line: Seq<char>) -> bool {
    let t = trim_spec(line);
    if control && code == KeyCode::Char('c') {
        p is Quit
    } else if control && code == KeyCode::Char('l') {
        p is Nothing
    } else {
        match code {
            KeyCode::Enter => if t.len() == 0 {
                p is Nothing
            } else if has_prefix(t, "/"@) && !has_prefix(t, "//"@) {
                p matches KeyPlan::SubmitCommand(c) && c@ == t
            } else {
                p matches KeyPlan::SubmitMessage(m) && m@ == t
            },
            KeyCode::Up => p == KeyPlan::NavigateHistory(HistoryDirection::Prev),
            KeyCode::Down => p == KeyPlan::NavigateHistory(HistoryDirection::Next),
            KeyCode::PageUp => p == KeyPlan::ScrollUp(PAGE_STEP),
            KeyCode::PageDown => p == KeyPlan::ScrollDown(PAGE_STEP),
            _ => p == KeyPlan::TypeKey { reset_selection: false },
        }
    }
}

pub fn plan_basic_key(code: KeyCode, modifiers: KeyModifiers, line: &str) -> (p: KeyPlan)
    ensures
        basic_plan_spec(p, code, modifiers.bits & 2u8 == 2u8, line@),
{
    let control = modifiers.contains(KeyModifiers::control());
    if control && code == KeyCode::Char('c') {
        return KeyPlan::Quit;
    }
    if control && code == KeyCode::Char('l') {
        return KeyPlan::Nothing;
    }
    match code {
        KeyCode::Enter => match classify_submission(line) {
            Submission::Empty => KeyPlan::Nothing,
            Submission::Command(c) => KeyPlan::SubmitCommand(c),
            Submission::Message(m) => KeyPlan::SubmitMessage(m),
        },
        KeyCode::Up => KeyPlan::NavigateHistory(HistoryDirection::Prev),
        KeyCode::Down => KeyPlan::NavigateHistory(HistoryDirection::Next),
        KeyCode::PageUp => KeyPlan::ScrollUp(PAGE_STEP),
        KeyCode::PageDown => KeyPlan::ScrollDown(PAGE_STEP),
        _ => KeyPlan::TypeKey { reset_selection: false },
    }
}

// ── effects ──

/// The highlight after moving `delta` places among `len` entries, wrapping around.
pub open spec fn cycled(selected: int, delta: int, len: int) -> int {
    (selected + delta) % len
}

/// Moves a highlight `delta` places among `len` entries, wrapping around at either end.
pub fn cycle_index(selected: usize, delta: i32, len: usize) -> (r: usize)
    requires
        0 < len <= 0x3fff_ffff,
        selected <= i32::MAX,
        i32::MIN <= selected + delta <= i32::MAX,
    ensures
        r == cycled(selected as int, delta as int, len as int),
        r < len,
{
    let a: i64 = selected as i64 + delta as i64;
    let n: i64 = len as i64;
    if a >= 0 {
        let r = a % n;
        assert(r == (selected + delta) % (len as int));
        r as usize
    } else {
        let b: i64 = -a;
        let m: i64 = b % n;
        if m == 0 {
            assert((selected + delta) % (len as int) == 0) by (nonlinear_arith)
                requires
                    a == selected + delta,
                    b == -a,
                    b > 0,
                    n == len,
                    n > 0,
                    b % n == 0,
            {
                let q = b / n;
                assert(b == q * n);
                assert(a == (-q) * n);
            }
            0
        } else {
            assert((selected + delta) % (len as int) == n - m) by (nonlinear_arith)
                requires
                    a == selected + delta,
                    b == -a,
                    b > 0,
                    n == len,
                    n > 0,
                    m == b % n,
                    m != 0,
            {
                let q = b / n;
                assert(b == q * n + m);
                assert(a == (-q - 1) * n + (n - m));
                assert(0 <= n - m < n);
            }
            (n - m) as usize
        }
    }
}

/// The highlighted entry among `len` entries: the highlight, or the last entry when the
/// highlight lies beyond it.
pub fn pick_index(selected: usize, len: usize) -> (r: usize)
    ensures
        r == (if len == 0 { 0 } else if selected < len { selected as int } else { len - 1 }),
{
    let last = if len == 0 { 0 } else { len - 1 };
    if selected < last {
        selected
    } else {
        last
    }
}

/// Whether a history entry is found by the lowercased query: every entry when the query is
/// empty, else those whose lowercased text contains it.
pub open spec fn found_by(entry: Seq<char>, query: Seq<char>) -> bool {
    query.len() == 0 || find_spec(lowercase(entry), query) is Some
}

/// The entries among the first `k` of the history found by `query`, newest first.
pub open spec fn matches_upto(history: Seq<Seq<char>>, query: Seq<char>, k: int) -> Seq<Seq<char>>
    decreases k,
{
    if k <= 0 || k > history.len() {
        Seq::empty()
    } else if found_by(history[k - 1], query) {
        seq![history[k - 1]] + matches_upto(history, query, k - 1)
    } else {
        matches_upto(history, query, k - 1)
    }
}

/// The history entries found by `query`, newest first.
pub open spec fn history_matches_spec(history: Seq<Seq<char>>, query: Seq<char>) -> Seq<Seq<char>> {
    matches_upto(history, query, history.len() as int)
}

pub open spec fn strings_view(v: Seq<String>) -> Seq<Seq<char>> {
    Seq::new(v.len(), |i: int| v[i]@)
}

/// The history entries the history search finds for the input line, newest first.
pub fn history_search_matches(history: &Vec<String>, line: &str) -> (r: Vec<String>)
    ensures
        strings_view(r@) == history_matches_spec(strings_view(history@), lowercase(line@)),
{
    let q = to_lowercase(line);
    let qv = chars_of(q.as_str());
    let ghost hs = strings_view(history@);
    let mut r: Vec<String> = Vec::new();
    let mut k: usize = history.len();
    while k > 0
        invariant
            k <= history.len(),
            hs == strings_view(history@),
            qv@ == lowercase(line@),
            strings_view(r@) + matches_upto(hs, qv@, k as int) == history_matches_spec(hs, qv@),
        decreases k,
    {
        let h = &history[k - 1];
        assert(hs[k - 1] == h@);
        let hl = to_lowercase(h.as_str());
        let hv = chars_of(hl.as_str());
        let found = qv.len() == 0 || find_chars(&hv, &qv).is_some();
        assert(found == found_by(hs[k - 1], qv@));
        let ghost before = strings_view(r@);
        if found {
            r.push(h.clone());
            assert(strings_view(r@) =~= before.push(h@));
            assert(strings_view(r@) + matches_upto(hs, qv@, k - 1) =~= before + matches_upto(hs, qv@, k as int));
        } else {
            assert(strings_view(r@) =~= before);
        }
        k = k - 1;
    }
    assert(strings_view(r@) + matches_upto(hs, qv@, 0) =~= strings_view(r@));
    r
}

/// The position of the last message of the user, or 0 when there is none.
pub open spec fn last_user_from(ms: Seq<Message>, k: int) -> int
    decreases k + 1,
{
    if k < 0 || k >= ms.len() {
        0
    } else if ms[k].role@ == "user"@ {
        k
    } else {
        last_user_from(ms, k - 1)
    }
}

/// The roles whose messages fold: thinking, tool calls and tool results.
pub open spec fn folds(role: Seq<char>) -> bool {
    role == "thinking"@ || role == "tool_call"@ || role == "tool_result"@
}

proof fn lemma_last_user_bound(ms: Seq<Message>, k: int)
    requires
        k < ms.len(),
    ensures
        0 <= last_user_from(ms, k) && (ms.len() > 0 ==> last_user_from(ms, k) < ms.len()),
    decreases k + 1,
{
    if k >= 0 && ms[k].role@ != "user"@ {
        lemma_last_user_bound(ms, k - 1);
    }
}

/// Folds or unfolds the thinking and tool messages from the last message of the user on;
/// all other messages stay as they are.
pub fn toggle_thinking(messages: &mut Vec<Message>)
    ensures
        final(messages)@.len() == old(messages)@.len(),
        forall|i: int|
            0 <= i < old(messages)@.len() ==> {
                let o = old(messages)@[i];
                let n = #[trigger] final(messages)@[i];
                &&& n.role == o.role && n.content == o.content && n.elapsed_ms == o.elapsed_ms
                &&& n.collapsed == (if i >= last_user_from(old(messages)@, old(messages)@.len() - 1) && folds(o.role@) {
                    !o.collapsed
                } else {
                    o.collapsed
                })
            },
{
    let ghost orig = messages@;
    let mut start: usize = 0;
    let mut k: usize = messages.len();
    let mut done = false;
    while k > 0 && !done
        invariant
            k <= messages.len(),
            messages@ == orig,
            done ==> start == last_user_from(orig, orig.len() - 1),
            !done ==> last_user_from(orig, orig.len() - 1) == last_user_from(orig, k - 1),
            !done ==> start == 0,
        decreases k + (if done { 0int } else { 1int }),
    {
        proof { reveal_strlit("user"); }
        if str_eq(messages[k - 1].role.as_str(), "user") {
            start = k - 1;
            done = true;
        } else {
            k = k - 1;
        }
    }
    assert(start == last_user_from(orig, orig.len() - 1));
    let mut rest: Vec<Message> = Vec::new();
    std::mem::swap(&mut rest, messages);
    let n0 = rest.len();
    assert(orig.len() == n0);
    let mut i: usize = 0;
    while rest.len() > 0
        invariant
            orig.len() <= usize::MAX,
            i + rest@.len() == orig.len(),
            rest@ == orig.skip(i as int),
            messages@.len() == i,
            start == last_user_from(orig, orig.len() - 1),
            forall|j: int|
                0 <= j < i ==> {
                    let o = orig[j];
                    let n = #[trigger] messages@[j];
                    &&& n.role == o.role && n.content == o.content && n.elapsed_ms == o.elapsed_ms
                    &&& n.collapsed == (if j >= start && folds(o.role@) {
                        !o.collapsed
                    } else {
                        o.collapsed
                    })
                },
        decreases rest@.len(),
    {
        let mut m = rest.remove(0);
        assert(m == orig[i as int]);
        assert(rest@ =~= orig.skip(i + 1));
        proof {
            reveal_strlit("thinking");
            reveal_strlit("tool_call");
            reveal_strlit("tool_result");
        }
        let r = m.role.as_str();
        if i >= start && (str_eq(r, "thinking") || str_eq(r, "tool_call") || str_eq(r, "tool_result")) {
            m.collapsed = !m.collapsed;
        }
        messages.push(m);
        i = i + 1;
    }
}

/// The text left in place of a cancelled answer.
pub open spec fn cancelled_text(partial: Seq<char>) -> Seq<char> {
    if partial.len() == 0 {
        "[cancelled]"@
    } else {
        partial + " [cancelled]"@
    }
}

/// Cancelling a streamed answer: an answer already shown last is taken away, and the part
/// streamed so far is shown marked as cancelled.
pub fn cancel_stream_messages(messages: &mut Vec<Message>, partial: &str)
    ensures
        ({
            let kept = if old(messages)@.len() > 0 && old(messages)@.last().role@ == "assistant"@ {
                old(messages)@.drop_last()
            } else {
                old(messages)@
            };
            &&& final(messages)@.len() == kept.len() + 1
            &&& final(messages)@.drop_last() == kept
            &&& final(messages)@.last().role@ == "assistant"@
            &&& final(messages)@.last().content@ == cancelled_text(partial@)
            &&& !final(messages)@.last().collapsed && final(messages)@.last().elapsed_ms is None
        }),
{
    proof { reveal_strlit("assistant"); }
    if messages.len() > 0 && str_eq(messages[messages.len() - 1].role.as_str(), "assistant") {
        let _ = messages.pop();
    }
    let ghost kept = messages@;
    let text = if partial.is_empty() {
        String::from_str("[cancelled]")
    } else {
        let mut t = String::from_str(partial);
        append_str(&mut t, " [cancelled]");
        t
    };
    proof { reveal_strlit("[cancelled]"); }
    messages.push(Message::assistant(text));
    assert(messages@.drop_last() =~= kept);
}

// ── path completion ──

/// Number of characters other than whitespace at the end of `s`.
pub open spec fn trail_word(s: Seq<char>) -> nat
    decreases s.len(),
{
    if s.len() > 0 && !is_ws(s.last()) {
        1 + trail_word(s.drop_last())
    } else {
        0
    }
}

/// The last whitespace-separated word of `s` (empty when there is none).
pub open spec fn last_word_spec(s: Seq<char>) -> Seq<char> {
    let t = trim_end_spec(s);
    t.skip(t.len() - trail_word(t))
}

proof fn lemma_trail_word_step(s: Seq<char>, i: int)
    requires
        0 <= i <= s.len(),
        forall|j: int| s.len() - i <= j < s.len() ==> !is_ws(#[trigger] s[j]),
        i < s.len() ==> is_ws(s[s.len() - 1 - i]),
    ensures
        trail_word(s) == i,
    decreases i,
{
    if i > 0 {
        let t = s.drop_last();
        assert forall|j: int| t.len() - (i - 1) <= j < t.len() implies !is_ws(#[trigger] t[j]) by {
            assert(t[j] == s[j]);
        }
        if i - 1 < t.len() {
            assert(t[t.len() - 1 - (i - 1)] == s[s.len() - 1 - i]);
        }
        lemma_trail_word_step(t, i - 1);
    }
}

/// Where path completion looks, for the input's last word: the folder part of the word (up to
/// and with its last `/` or `\`) and the file name prefix after it; the current folder and the
/// whole word when the word has no separator.
pub struct CompletionTarget {
    pub word: String,
    /// The folder part of the word, when it has one.
    pub dir: Option<String>,
    pub prefix: String,
}

pub open spec fn is_path_sep(c: char) -> bool {
    c == '/' || c == '\\'
}

/// The last position at or before `k` of a path separator.
pub open spec fn last_sep_from(s: Seq<char>, k: int) -> Option<int>
    decreases k + 1,
{
    if k < 0 || k >= s.len() {
        None
    } else if is_path_sep(s[k]) {
        Some(k)
    } else {
        last_sep_from(s, k - 1)
    }
}

proof fn lemma_last_sep_from(s: Seq<char>, k: int)
    requires
        k < s.len(),
    ensures
        last_sep_from(s, k) matches Some(i) ==> 0 <= i <= k,
    decreases k + 1,
{
    if k >= 0 && !is_path_sep(s[k]) {
        lemma_last_sep_from(s, k - 1);
    }
}

pub open spec fn target_spec(text: Seq<char>, t: CompletionTarget) -> bool {
    let w = last_word_spec(text);
    &&& t.word@ == w
    &&& match last_sep_from(w, w.len() - 1) {
        Some(sep) => (t.dir matches Some(d) && d@ == w.take(sep + 1)) && t.prefix@ == w.skip(sep + 1),
        None => t.dir is None && t.prefix@ == w,
    }
}

/// What path completion works on, or none when the input does not end in a word.
pub fn completion_target(text: &str) -> (r: Option<CompletionTarget>)
    ensures
        last_word_spec(text@).len() == 0 <==> r is None,
        r matches Some(t) ==> target_spec(text@, t),
{
    let v = chars_of(text);
    let b = trail_ws_count(&v);
    proof { lemma_trail_ws_bound(v@); }
    let t = slice_chars(&v, 0, v.len() - b);
    assert(t@ =~= trim_end_spec(v@));
    let mut i: usize = 0;
    while i < t.len() && !is_whitespace(t[t.len() - 1 - i])
        invariant
            i <= t.len(),
            forall|j: int| t.len() - i <= j < t.len() ==> !is_ws(#[trigger] t@[j]),
        decreases t.len() - i,
    {
        i = i + 1;
    }
    proof { lemma_trail_word_step(t@, i as int); }
    let w = slice_chars(&t, t.len() - i, t.len());
    assert(w@ =~= last_word_spec(text@));
    if w.len() == 0 {
        return None;
    }
    let mut k: usize = w.len();
    while k > 0 && !(w[k - 1] == '/' || w[k - 1] == '\\')
        invariant
            k <= w.len(),
            last_sep_from(w@, w@.len() - 1) == last_sep_from(w@, k - 1),
        decreases k,
    {
        k = k - 1;
    }
    proof { lemma_last_sep_from(w@, w@.len() - 1); }
    if k == 0 {
        assert(last_sep_from(w@, -1) is None);
        Some(CompletionTarget { word: string_of(&w), dir: None, prefix: string_of(&w) })
    } else {
        let d = slice_chars(&w, 0, k);
        assert(d@ =~= w@.take(k as int));
        let p = slice_chars(&w, k, w.len());
        assert(p@ =~= w@.skip(k as int));
        Some(CompletionTarget { word: string_of(&w), dir: Some(string_of(&d)), prefix: string_of(&p) })
    }
}

/// The completion an entry of the folder offers: its name (after the folder part, if any),
/// with `/` after a folder, when the name starts with the prefix in any letter case.
pub open spec fn offered_spec(name: Seq<char>, is_dir: bool, dir: Option<Seq<char>>, prefix: Seq<char>) -> Option<Seq<char>> {
    if has_prefix(lowercase(name), lowercase(prefix)) {
        let full = match dir {
            Some(d) => d + name,
            None => name,
        };
        Some(if is_dir { full + "/"@ } else { full })
    } else {
        None
    }
}

pub open spec fn opt_str(o: Option<String>) -> Option<Seq<char>> {
    match o {
        Some(s) => Some(s@),
        None => None,
    }
}

/// The completions offered by the entries (name, whether it is a folder) of a folder.
pub open spec fn offers_spec(entries: Seq<(String, bool)>, dir: Option<Seq<char>>, prefix: Seq<char>) -> Seq<Seq<char>>
    decreases entries.len(),
{
    if entries.len() == 0 {
        Seq::empty()
    } else {
        let rest = offers_spec(entries.drop_last(), dir, prefix);
        match offered_spec(entries.last().0@, entries.last().1, dir, prefix) {
            Some(o) => rest.push(o),
            None => rest,
        }
    }
}

/// The input before its last word, cut at the byte where the word would start if it ended the
/// input.
pub open spec fn before_word(text: Seq<char>, word: Seq<char>) -> Seq<char> {
    decode_utf8(encode_utf8(text).take(byte_len(text) - byte_len(word)))
}

/// Whether that cut falls on a character boundary.
pub open spec fn cut_ok(text: Seq<char>, word: Seq<char>) -> bool {
    byte_len(word) <= byte_len(text) && is_char_boundary(encode_utf8(text), byte_len(text) - byte_len(word))
}

pub fn completion_cut_ok(text: &str, word: &str) -> (b: bool)
    ensures
        b == cut_ok(text@, word@),
{
    word.len() <= text.len() && text.is_char_boundary(text.len() - word.len())
}

/// The input completed with the only completion the folder's entries offer, or none when they
/// offer none or several.
pub fn complete_path(text: &str, target: &CompletionTarget, entries: &Vec<(String, bool)>) -> (r: Option<String>)
    requires
        cut_ok(text@, target.word@),
    ensures
        offers_spec(entries@, opt_str(target.dir), target.prefix@).len() == 1 ==> (r matches Some(s) && s@ == before_word(
            text@,
            target.word@,
        ) + offers_spec(entries@, opt_str(target.dir), target.prefix@)[0]),
        offers_spec(entries@, opt_str(target.dir), target.prefix@).len() != 1 ==> r is None,
{
    let lp = to_lowercase(target.prefix.as_str());
    let lpv = chars_of(lp.as_str());
    let ghost dir = opt_str(target.dir);
    let mut offers: Vec<String> = Vec::new();
    let mut i: usize = 0;
    while i < entries.len()
        invariant
            i <= entries.len(),
            lpv@ == lowercase(target.prefix@),
            dir == opt_str(target.dir),
            strings_view(offers@) == offers_spec(entries@.take(i as int), dir, target.prefix@),
        decreases entries.len() - i,
    {
        let (name, is_dir) = (&entries[i].0, entries[i].1);
        let ln = to_lowercase(name.as_str());
        let lnv = chars_of(ln.as_str());
        assert(entries@.take(i + 1).drop_last() =~= entries@.take(i as int));
        assert(entries@.take(i + 1).last() == entries@[i as int]);
        proof { reveal_strlit("/"); }
        if starts_with_chars(&lnv, &lpv) {
            let mut full = match &target.dir {
                Some(d) => {
                    let mut f = d.clone();
                    append_str(&mut f, name.as_str());
                    f
                },
                None => name.clone(),
            };
            if is_dir {
                append_str(&mut full, "/");
            }
            let ghost before = strings_view(offers@);
            offers.push(full);
            assert(strings_view(offers@) =~= before.push(offered_spec(name@, is_dir, dir, target.prefix@)->0));
        }
        i = i + 1;
    }
    assert(entries@.take(entries.len() as int) =~= entries@);
    if offers.len() != 1 {
        return None;
    }
    let cut = text.len() - target.word.as_str().len();
    let (before, _) = text.split_at(cut);
    proof {
        encode_utf8_decode_utf8(before@);
        assert(before.spec_bytes() =~= text.spec_bytes().subrange(0, cut as int));
        assert(text.spec_bytes().subrange(0, cut as int) =~= encode_utf8(text@).take(cut as int));
    }
    let mut r = String::from_str(before);
    append_str(&mut r, offers[0].as_str());
    Some(r)
}

/// Whether `v` starts with `p`.
fn starts_with_chars(v: &Vec<char>, p: &Vec<char>) -> (b: bool)
    ensures
        b == has_prefix(v@, p@),
{
    crate::text::matches_at(v, p, 0)
}

} // verus!
