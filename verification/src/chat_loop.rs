//! The decisions of the chat front end's main loop: how a permission request is put to the
//! user, which skill a bare slash command invokes, when a streamed answer starts and how it
//! is closed, which messages go to the scrollback, and how long to wait for a key.

use vstd::prelude::*;

use crate::app_state::{classify_stream_token, token_spec, AppState, Message, StreamToken};
use crate::app_state::estimate_tokens;
use crate::text::{
    decimal, decimal_string,
    append_str, chars_of, lead_run, lead_run_count, lemma_lead_run_bound, rfind_spec, slice_chars, str_eq, string_of,
    trim, trim_spec,
};

verus! {

/// The title and text of the overlay that asks for a tool's permission.
pub fn permission_prompt(tool_name: &str, description: &str, risk_level: &str) -> (r: (String, String))
    ensures
        r.0@ == "Allow "@ + tool_name@ + "?"@,
        r.1@ == description@ + "\n\nRisk: "@ + risk_level@,
{
    let mut title = String::from_str("Allow ");
    append_str(&mut title, tool_name);
    append_str(&mut title, "?");
    let mut text = String::from_str(description);
    append_str(&mut text, "\n\nRisk: ");
    append_str(&mut text, risk_level);
    (title, text)
}

/// The name a bare slash command asks for: without its leading `/`s, trimmed.
pub open spec fn command_skill_name(cmd: Seq<char>) -> Seq<char> {
    trim_spec(cmd.skip(lead_run(cmd, '/') as int))
}

/// The part of a qualified skill name after its last `:` (the whole name when it has none).
pub open spec fn last_segment(name: Seq<char>) -> Seq<char> {
    match rfind_spec(name, seq![':']) {
        Some(k) => name.skip(k + 1),
        None => name,
    }
}

pub open spec fn names_view(v: Seq<String>) -> Seq<Seq<char>> {
    Seq::new(v.len(), |i: int| v[i]@)
}

/// The first external skill (its name holds a `:`) whose last segment is `name`.
pub open spec fn first_external_match(known: Seq<Seq<char>>, name: Seq<char>, k: int) -> Option<int>
    decreases known.len() - k,
{
    if k < 0 || k >= known.len() {
        None
    } else if known[k].contains(':') && last_segment(known[k]) == name {
        Some(k)
    } else {
        first_external_match(known, name, k + 1)
    }
}

/// The skill a bare slash command invokes among the known skills: the one of that name, else
/// the project skill of that name, else the first external skill whose last segment is that
/// name.
pub open spec fn skill_for_command_spec(known: Seq<Seq<char>>, name: Seq<char>) -> Option<Seq<char>> {
    if known.contains(name) {
        Some(name)
    } else if known.contains("project:"@ + name) {
        Some("project:"@ + name)
    } else {
        match first_external_match(known, name, 0) {
            Some(k) => Some(known[k]),
            None => None,
        }
    }
}

fn contains_name(known: &Vec<String>, name: &str) -> (b: bool)
    ensures
        b == names_view(known@).contains(name@),
{
    let ghost kv = names_view(known@);
    let mut i: usize = 0;
    while i < known.len()
        invariant
            i <= known@.len(),
            kv == names_view(known@),
            forall|j: int| 0 <= j < i ==> kv[j] != name@,
        decreases known@.len() - i,
    {
        if str_eq(known[i].as_str(), name) {
            assert(kv[i as int] == name@);
            return true;
        }
        i = i + 1;
    }
    false
}

fn last_segment_of(v: &Vec<char>) -> (r: (Vec<char>, bool))
    ensures
        r.0@ == last_segment(v@),
        r.1 == v@.contains(':'),
{
    let mut k: usize = v.len();
    while k > 0 && v[k - 1] != ':'
        invariant
            k <= v.len(),
            forall|j: int| k <= j < v.len() ==> v@[j] != ':',
        decreases k,
    {
        k = k - 1;
    }
    proof {
        lemma_rfind_colon(v@, k as int);
    }
    if k == 0 {
        assert(!v@.contains(':')) by {
            if v@.contains(':') {
                let j = choose|j: int| 0 <= j < v@.len() && v@[j] == ':';
                assert(v@[j] != ':');
            }
        }
        (slice_chars(v, 0, v.len()), false)
    } else {
        let r = slice_chars(v, k, v.len());
        assert(r@ =~= v@.skip(k as int));
        (r, true)
    }
}

proof fn lemma_rfind_colon(s: Seq<char>, k: int)
    requires
        0 <= k <= s.len(),
        forall|j: int| k <= j < s.len() ==> s[j] != ':',
        k > 0 ==> s[k - 1] == ':',
    ensures
        k > 0 ==> rfind_spec(s, seq![':']) == Some(k - 1),
        k == 0 ==> rfind_spec(s, seq![':']) is None,
{
    assert forall|j: int| k <= j < s.len() implies !crate::text::occurs_at(s, seq![':'], j) by {
        if crate::text::occurs_at(s, seq![':'], j) {
            assert(s.subrange(j, j + 1)[0] == s[j]);
        }
    }
    lemma_rfind_from_down(s, s.len() - 1, k);
    if k > 0 {
        assert(s.subrange(k - 1, k) =~= seq![':']);
    }
}

proof fn lemma_rfind_from_down(s: Seq<char>, i: int, k: int)
    requires
        0 <= k,
        i < s.len(),
        forall|j: int| k <= j <= i ==> !crate::text::occurs_at(s, seq![':'], j),
        k > 0 && k - 1 <= i + 1 ==> s[k - 1] == ':' && k <= s.len(),
    ensures
        k > 0 && k - 1 <= i ==> crate::text::rfind_from(s, seq![':'], i) == Some(k - 1),
        k == 0 ==> crate::text::rfind_from(s, seq![':'], i) is None,
    decreases i + 1,
{
    if i >= 0 && i >= k {
        lemma_rfind_from_down(s, i - 1, k);
    } else if i >= 0 && k > 0 && i == k - 1 {
        assert(s.subrange(i, i + 1) =~= seq![':']);
    }
}

/// The skill a bare slash command invokes; see `skill_for_command_spec`.
pub fn skill_for_command(known: &Vec<String>, cmd: &str) -> (r: Option<String>)
    ensures
        match skill_for_command_spec(names_view(known@), command_skill_name(cmd@)) {
            Some(q) => r matches Some(x) && x@ == q,
            None => r is None,
        },
{
    let cv = chars_of(cmd);
    let k = lead_run_count(&cv, '/');
    proof {
        lemma_lead_run_bound(cv@, '/');
    }
    let rest = slice_chars(&cv, k, cv.len());
    assert(rest@ =~= cmd@.skip(lead_run(cmd@, '/') as int));
    let name = trim(string_of(&rest).as_str());
    if contains_name(known, name.as_str()) {
        return Some(name);
    }
    let mut project = String::from_str("project:");
    append_str(&mut project, name.as_str());
    if contains_name(known, project.as_str()) {
        return Some(project);
    }
    let ghost kv = names_view(known@);
    let mut i: usize = 0;
    while i < known.len()
        invariant
            i <= known@.len(),
            kv == names_view(known@),
            !kv.contains(name@),
            !kv.contains(project@),
            project@ == "project:"@ + name@,
            name@ == command_skill_name(cmd@),
            first_external_match(kv, name@, 0) == first_external_match(kv, name@, i as int),
        decreases known@.len() - i,
    {
        let v = chars_of(known[i].as_str());
        let (seg, has_colon) = last_segment_of(&v);
        if has_colon && str_eq(string_of(&seg).as_str(), name.as_str()) {
            return Some(known[i].clone());
        }
        i = i + 1;
    }
    None
}

/// What the user sees for a slash command that is neither a command nor a skill.
pub fn unknown_command_message(cmd: &str) -> (r: String)
    ensures
        r@ == "Unknown command: "@ + cmd@ + ". Type /help for commands, /skills list for skills."@,
{
    let mut r = String::from_str("Unknown command: ");
    append_str(&mut r, cmd);
    append_str(&mut r, ". Type /help for commands, /skills list for skills.");
    r
}

/// The collapsed message that shows an invoked skill's context.
pub fn skill_message(qualified_name: &str, context: &str) -> (m: Message)
    ensures
        m.role@ == "skill"@,
        m.content@ == "["@ + qualified_name@ + "] "@ + context@,
        m.collapsed,
        m.elapsed_ms is None,
{
    let mut content = String::from_str("[");
    append_str(&mut content, qualified_name);
    append_str(&mut content, "] ");
    append_str(&mut content, context);
    Message { role: String::from_str("skill"), content, collapsed: true, elapsed_ms: None }
}

/// A waiting front end streams an answer to its last message when that is the user's.
pub fn message_to_answer(messages: &Vec<Message>) -> (r: Option<String>)
    ensures
        messages@.len() > 0 && messages@.last().role@ == "user"@ ==> (r matches Some(c) && c == messages@.last().content),
        !(messages@.len() > 0 && messages@.last().role@ == "user"@) ==> r is None,
{
    if messages.len() == 0 {
        return None;
    }
    let last = &messages[messages.len() - 1];
    if str_eq(last.role.as_str(), "user") {
        Some(last.content.clone())
    } else {
        None
    }
}

/// The last assistant message among the first `k`.
pub open spec fn last_assistant_before(ms: Seq<Message>, k: int) -> Option<int>
    decreases k,
{
    if k <= 0 || k > ms.len() {
        None
    } else if ms[k - 1].role@ == "assistant"@ {
        Some(k - 1)
    } else {
        last_assistant_before(ms, k - 1)
    }
}

fn find_last_assistant(messages: &Vec<Message>) -> (r: Option<usize>)
    ensures
        match r {
            Some(i) => last_assistant_before(messages@, messages@.len() as int) == Some(i as int) && i < messages@.len(),
            None => last_assistant_before(messages@, messages@.len() as int) is None,
        },
{
    let mut k: usize = messages.len();
    while k > 0
        invariant
            k <= messages@.len(),
            last_assistant_before(messages@, messages@.len() as int) == last_assistant_before(messages@, k as int),
        decreases k,
    {
        if str_eq(messages[k - 1].role.as_str(), "assistant") {
            return Some(k - 1);
        }
        k = k - 1;
    }
    None
}

/// Closes a finished stream: an empty answer (nothing streamed, last message empty) becomes
/// `[no response]`; otherwise the last assistant message gets the time the answer took.
pub fn finish_stream(messages: &mut Vec<Message>, buffer_empty: bool, elapsed_ms: Option<u64>)
    ensures
        ({
            let o = old(messages)@;
            let n = final(messages)@;
            if buffer_empty && o.len() > 0 && o.last().content@.len() == 0 {
                &&& n.len() == o.len()
                &&& n.drop_last() == o.drop_last()
                &&& n.last().role@ == "assistant"@ && n.last().content@ == "[no response]"@
                &&& !n.last().collapsed && n.last().elapsed_ms == elapsed_ms
            } else {
                match last_assistant_before(o, o.len() as int) {
                    Some(i) => n == o.update(i, Message { elapsed_ms, ..o[i] }),
                    None => n == o,
                }
            }
        }),
{
    if buffer_empty && messages.len() > 0 && messages[messages.len() - 1].content.as_str().is_empty() {
        messages.pop();
        let mut m = Message::assistant(String::from_str("[no response]"));
        m.elapsed_ms = elapsed_ms;
        messages.push(m);
        return;
    }
    match find_last_assistant(messages) {
        Some(i) => {
            let old_m = messages[i].clone_message();
            messages.set(i, Message { elapsed_ms, ..old_m });
        },
        None => {},
    }
}

impl Message {
    /// A copy of the message.
    pub fn clone_message(&self) -> (r: Message)
        ensures
            r == *self,
    {
        Message {
            role: self.role.clone(),
            content: self.content.clone(),
            collapsed: self.collapsed,
            elapsed_ms: self.elapsed_ms,
        }
    }
}

/// Where the messages to move into the scrollback end: while streaming, before the last
/// assistant message (which is still being written); otherwise at the end.
pub fn flush_end(messages: &Vec<Message>, streaming: bool) -> (r: usize)
    ensures
        r == if streaming {
            match last_assistant_before(messages@, messages@.len() as int) {
                Some(i) => i as usize,
                None => messages@.len() as usize,
            }
        } else {
            messages@.len() as usize
        },
{
    if streaming {
        match find_last_assistant(messages) {
            Some(i) => i,
            None => messages.len(),
        }
    } else {
        messages.len()
    }
}

/// How long the loop waits for a key: briefly while an answer is awaited or streamed.
pub fn poll_timeout_ms(state: AppState) -> (r: u64)
    ensures
        r == match state {
            AppState::Waiting | AppState::Streaming => 50u64,
            _ => 200u64,
        },
{
    match state {
        AppState::Waiting | AppState::Streaming => 50,
        _ => 200,
    }
}

/// The message sent for the user's text while a skill is active: the skill's instructions
/// first, then the text, each under a heading.
pub fn with_active_skill(skill_context: Option<&str>, user_message: String) -> (r: String)
    ensures
        r@ == match skill_context {
            Some(c) => "[Active Skill Instructions]\n"@ + c@ + "\n\n[User Message]\n"@ + user_message@,
            None => user_message@,
        },
{
    match skill_context {
        Some(c) => {
            let mut r = String::from_str("[Active Skill Instructions]\n");
            append_str(&mut r, c);
            append_str(&mut r, "\n\n[User Message]\n");
            append_str(&mut r, user_message.as_str());
            r
        },
        None => user_message,
    }
}

/// The role under which a marked token is shown.
pub open spec fn marked_role(t: StreamToken) -> Seq<char> {
    match t {
        StreamToken::Thinking(_) => "thinking"@,
        StreamToken::ToolCall(_) => "tool_call"@,
        StreamToken::ToolResult(_) => "tool_result"@,
        StreamToken::Text(_) => "assistant"@,
    }
}

/// Takes one streamed token: a marked token (reasoning, tool call, tool result) becomes a
/// collapsed message of its own; answer text is added to the buffer, and the last assistant
/// message shows the whole buffer.
pub fn apply_stream_token(messages: &mut Vec<Message>, buffer: &mut String, token: &str)
    ensures
        ({
            let o = old(messages)@;
            let n = final(messages)@;
            exists|t: StreamToken| #[trigger] token_spec(t, token@) && match t {
                StreamToken::Text(x) => {
                    &&& final(buffer)@ == old(buffer)@ + token@
                    &&& match last_assistant_before(o, o.len() as int) {
                        Some(i) => n == o.update(i, Message { content: *final(buffer), ..o[i] }),
                        None => n == o,
                    }
                },
                StreamToken::Thinking(c) | StreamToken::ToolCall(c) | StreamToken::ToolResult(c) => {
                    &&& final(buffer)@ == old(buffer)@
                    &&& n.len() == o.len() + 1
                    &&& n.drop_last() == o
                    &&& n.last().role@ == marked_role(t)
                    &&& n.last().content@ == c@
                    &&& n.last().collapsed
                    &&& n.last().elapsed_ms is None
                },
            }
        }),
{
    let t = classify_stream_token(token);
    let ghost tg = t;
    match t {
        StreamToken::Text(_) => {
            append_str(buffer, token);
            match find_last_assistant(messages) {
                Some(i) => {
                    let old_m = messages[i].clone_message();
                    messages.set(i, Message { content: buffer.clone(), ..old_m });
                },
                None => {},
            }
        },
        StreamToken::Thinking(c) => {
            messages.push(Message { role: String::from_str("thinking"), content: c, collapsed: true, elapsed_ms: None });
        },
        StreamToken::ToolCall(c) => {
            messages.push(Message { role: String::from_str("tool_call"), content: c, collapsed: true, elapsed_ms: None });
        },
        StreamToken::ToolResult(c) => {
            messages.push(Message { role: String::from_str("tool_result"), content: c, collapsed: true, elapsed_ms: None });
        },
    }
    assert(token_spec(tg, token@));
}

/// What the agent is doing, as the status line shows it.
#[derive(Debug, Clone, Copy, PartialEq, Eq, Structural)]
pub enum AgentState {
    Idle,
    Thinking,
    Acting,
}

/// The icon of the agent's state.
pub fn state_icon(state: AgentState) -> (r: &'static str)
    ensures
        r@ == match state {
            AgentState::Idle => "\u{25cb}"@,
            AgentState::Thinking => "\u{25cf}"@,
            AgentState::Acting => "\u{25c6}"@,
        },
{
    match state {
        AgentState::Idle => "\u{25cb}",
        AgentState::Thinking => "\u{25cf}",
        AgentState::Acting => "\u{25c6}",
    }
}

/// The frame of the spinner shown while waiting (it turns every fourth frame) or streaming
/// (every third), among its ten frames.
pub fn spinner_frame(frame_count: u64, streaming: bool) -> (r: usize)
    ensures
        r < 10,
        r == if streaming { (frame_count / 3) % 10 } else { (frame_count / 4) % 10 },
{
    if streaming {
        ((frame_count / 3) % 10) as usize
    } else {
        ((frame_count / 4) % 10) as usize
    }
}

/// A duration in whole seconds as the status line shows it: `Xm Ys` from a minute on.
pub open spec fn short_duration(secs: nat) -> Seq<char> {
    if secs >= 60 {
        decimal(secs / 60) + "m "@ + decimal(secs % 60) + "s"@
    } else {
        decimal(secs) + "s"@
    }
}

/// The status text while an answer streams: how long it has taken and about how many tokens
/// (one per four bytes) have come.
pub fn streaming_status(elapsed_secs: u64, buffer_bytes: usize) -> (r: String)
    ensures
        exists|t: usize| #[trigger] (t * 4) >= buffer_bytes && t * 4 < buffer_bytes + 4 && r@ == "Streaming\u{2026} ("@
            + short_duration(elapsed_secs as nat) + " \u{00b7} \u{2193} ~"@ + decimal(t as nat) + " tokens)"@,
{
    let mut r = String::from_str("Streaming\u{2026} (");
    if elapsed_secs >= 60 {
        append_str(&mut r, decimal_string(elapsed_secs / 60).as_str());
        append_str(&mut r, "m ");
        append_str(&mut r, decimal_string(elapsed_secs % 60).as_str());
        append_str(&mut r, "s");
    } else {
        append_str(&mut r, decimal_string(elapsed_secs).as_str());
        append_str(&mut r, "s");
    }
    let t = estimate_tokens(buffer_bytes);
    append_str(&mut r, " \u{00b7} \u{2193} ~");
    append_str(&mut r, decimal_string(t as u64).as_str());
    append_str(&mut r, " tokens)");
    assert(t * 4 >= buffer_bytes && t * 4 < buffer_bytes + 4);
    r
}

/// The status text while an answer is awaited.
pub fn waiting_status(elapsed_secs: u64) -> (r: String)
    ensures
        r@ == "Thinking\u{2026} ("@ + decimal(elapsed_secs as nat) + "s)"@,
{
    let mut r = String::from_str("Thinking\u{2026} (");
    append_str(&mut r, decimal_string(elapsed_secs).as_str());
    append_str(&mut r, "s)");
    r
}

/// The rows of the command palette: at most ten, and no more than fit above the input; the
/// selection (held to the last item) is kept in view, scrolling only as far as needed.
/// Returns the number of rows, the first and one past the last item shown, and the selection;
/// none when no row fits above the input.
pub open spec fn palette_window_spec(total: nat, selected: nat, above: nat) -> Option<(nat, nat, nat, nat)> {
    if above == 0 {
        None
    } else {
        let visible = if total < 10 { total } else { 10 };
        let visible = if visible < above { visible } else { above };
        let sel = if total == 0 { 0 } else if selected < total { selected } else { (total - 1) as nat };
        let start: nat = if sel >= visible { (sel - visible + 1) as nat } else { 0 };
        let end: nat = if start + visible < total { start + visible } else { total };
        Some((visible, start, end, sel))
    }
}

pub fn palette_window(total: usize, selected: usize, above: usize) -> (r: Option<(usize, usize, usize, usize)>)
    ensures
        match palette_window_spec(total as nat, selected as nat, above as nat) {
            Some((v, s, e, sel)) => r == Some((v as usize, s as usize, e as usize, sel as usize)),
            None => r is None,
        },
{
    if above == 0 {
        return None;
    }
    let mut visible = if total < 10 { total } else { 10 };
    if visible > above {
        visible = above;
    }
    let sel = if total == 0 { 0 } else if selected < total { selected } else { total - 1 };
    let start = if sel >= visible { sel - visible + 1 } else { 0 };
    let end = if start + visible < total { start + visible } else { total };
    Some((visible, start, end, sel))
}

/// The selected item is always among the rows shown, and no more rows are shown than fit.
pub proof fn law_palette_selection_visible(total: nat, selected: nat, above: nat)
    requires
        total > 0,
        above > 0,
    ensures
        palette_window_spec(total, selected, above) matches Some((v, s, e, sel)) && s <= sel < e && e - s <= v
            && v <= above && v <= 10 && e <= total,
{
}

} // verus!
