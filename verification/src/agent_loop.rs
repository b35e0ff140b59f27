//! The decisions of the agent loop: when the model is called and how, what becomes of each
//! tool result, how the answer is settled when the model keeps calling tools, and the text
//! kept of a long conversation. The caller makes the model calls and runs the tools.

use vstd::prelude::*;
use vstd::string::StringSliceAdditionalSpecFns;
use vstd::utf8::{decode_utf8, encode_utf8, encode_utf8_decode_utf8, is_char_boundary};

use crate::render_text::byte_len;
use crate::text::{
    append_str, chars_of, decimal, decimal_string, find_char, has_prefix, lemma_find_from_bounds, slice_chars,
    split_once_spec, str_eq, string_of, text_starts_with,
};
use crate::wrap::{split_inclusive_spec, strings_view};

verus! {

/// Tool-call rounds allowed at the least, whatever the configuration says.
pub const MIN_ITERATIONS: usize = 10;

/// Seconds allowed at the least for a whole run.
pub const MIN_TIMEOUT_SECS: u64 = 120;

/// The longest tool result kept whole, in bytes.
pub const MAX_TOOL_RESULT: usize = 64000;

/// The seconds a run may take: the configured value, but at least two minutes.
pub fn agent_timeout_secs(configured: u64) -> (r: u64)
    ensures
        r == (if configured < MIN_TIMEOUT_SECS { MIN_TIMEOUT_SECS } else { configured }),
{
    if configured < MIN_TIMEOUT_SECS {
        MIN_TIMEOUT_SECS
    } else {
        configured
    }
}

/// The first `n` bytes of `s` as text.
pub open spec fn byte_prefix(s: Seq<char>, n: int) -> Seq<char> {
    decode_utf8(encode_utf8(s).take(n))
}

/// Whether `s` can be cut after `n` bytes without splitting a character.
pub open spec fn cuttable_at(s: Seq<char>, n: int) -> bool {
    byte_len(s) > n ==> is_char_boundary(encode_utf8(s), n)
}

pub fn is_cuttable_at(s: &str, n: usize) -> (b: bool)
    ensures
        b == cuttable_at(s@, n as int),
{
    if s.len() > n {
        s.is_char_boundary(n)
    } else {
        true
    }
}

fn byte_prefix_of(s: &str, n: usize) -> (r: &str)
    requires
        byte_len(s@) > n,
        is_char_boundary(encode_utf8(s@), n as int),
    ensures
        r@ == byte_prefix(s@, n as int),
{
    let (head, _) = s.split_at(n);
    proof {
        encode_utf8_decode_utf8(head@);
        assert(head.spec_bytes() =~= s.spec_bytes().subrange(0, n as int));
        assert(s.spec_bytes().subrange(0, n as int) =~= encode_utf8(s@).take(n as int));
    }
    head
}

/// A tool result as handed to the model: whole up to 64000 bytes, else its first 64000
/// bytes and a note of how many were left out.
pub open spec fn truncated_result(s: Seq<char>) -> Seq<char> {
    if byte_len(s) <= MAX_TOOL_RESULT {
        s
    } else {
        byte_prefix(s, MAX_TOOL_RESULT as int) + "\n\n[... "@ + decimal((byte_len(s) - MAX_TOOL_RESULT) as nat)
            + " chars truncated ...]"@
    }
}

pub fn truncate_tool_result(s: &str) -> (r: String)
    requires
        cuttable_at(s@, MAX_TOOL_RESULT as int),
    ensures
        r@ == truncated_result(s@),
{
    let n = s.len();
    if n <= MAX_TOOL_RESULT {
        return String::from_str(s);
    }
    let mut r = String::from_str(byte_prefix_of(s, MAX_TOOL_RESULT));
    append_str(&mut r, "\n\n[... ");
    let count = decimal_string((n - MAX_TOOL_RESULT) as u64);
    append_str(&mut r, count.as_str());
    append_str(&mut r, " chars truncated ...]");
    r
}

/// The text of a tool's outcome: its output cut to size, or `Tool error: ` and the error.
pub open spec fn tool_result_text(outcome: Result<Seq<char>, Seq<char>>) -> Seq<char> {
    match outcome {
        Ok(out) => truncated_result(out),
        Err(e) => "Tool error: "@ + e,
    }
}

/// A tool result as reported to the front end: the first 200 bytes and `...` when longer.
pub open spec fn result_summary(result: Seq<char>) -> Seq<char> {
    if byte_len(result) > 200 {
        byte_prefix(result, 200) + "..."@
    } else {
        result
    }
}

/// A call of a tool by the model.
pub struct ToolCallRef {
    pub id: String,
    pub name: String,
}

/// What becomes of one tool call: the result handed back to the model, its summary for the
/// front end, and whether the tool succeeded.
pub struct ToolReport {
    pub result: String,
    pub summary: String,
    pub success: bool,
}

/// How far a run has got.
#[derive(Debug, Clone, Copy, PartialEq, Eq, Structural)]
pub enum AgentPhase {
    /// The model is called with the tools, up to the round limit.
    Calling,
    /// The model kept calling tools or gave no text: it is called once more without tools.
    Forcing,
    /// The answer is settled.
    Done,
}

/// The model call a run asks for next.
#[derive(Debug, Clone, Copy, PartialEq, Eq, Structural)]
pub enum AgentRequest {
    /// A call with the tools; streamed to the front end when `stream` holds.
    WithTools { stream: bool },
    /// A call without tools that must answer in text.
    TextOnly,
    /// No call: the run is over.
    Nothing,
}

/// The state of one run of the agent loop.
pub struct AgentRun {
    /// Rounds of model calls with tools allowed.
    pub max_iterations: usize,
    /// Whether the front end is fed as the answer arrives.
    pub streaming: bool,
    /// Model calls with tools made so far.
    pub iteration: usize,
    pub phase: AgentPhase,
    /// The answer so far (empty while there is none).
    pub last_response: String,
    /// The tool calls and results of the run as (role, content) messages, in order.
    pub tool_messages: Vec<(String, String)>,
    pub prompt_tokens: usize,
    pub completion_tokens: usize,
}

pub open spec fn pairs_view(v: Seq<(String, String)>) -> Seq<(Seq<char>, Seq<char>)> {
    Seq::new(v.len(), |i: int| (v[i].0@, v[i].1@))
}

/// The two messages a tool call leaves: the call by the assistant and the tool's result.
pub open spec fn tool_call_messages(id: Seq<char>, name: Seq<char>, result: Seq<char>) -> Seq<(Seq<char>, Seq<char>)> {
    seq![("assistant"@, "ToolCall|"@ + id + "|"@ + name), ("tool"@, id + "|"@ + result)]
}

/// What the front end is fed of an answer: its space-ended pieces when the run streams.
pub open spec fn streamed_words(streaming: bool, text: Seq<char>) -> Seq<Seq<char>> {
    if streaming {
        split_inclusive_spec(text)
    } else {
        Seq::empty()
    }
}

/// The results of the run's tools, each without the call id before its first `|`, separated
/// by rules: the answer of last resort.
pub open spec fn tools_summary(msgs: Seq<(Seq<char>, Seq<char>)>) -> Seq<char>
    decreases msgs.len(),
{
    if msgs.len() == 0 {
        Seq::empty()
    } else {
        let rest = tools_summary(msgs.drop_last());
        let m = msgs.last();
        if m.0 == "tool"@ {
            let part = match split_once_spec(m.1, '|').1 {
                Some(after) => after,
                None => m.1,
            };
            if has_tool(msgs.drop_last()) {
                rest + "\n\n---\n\n"@ + part
            } else {
                part
            }
        } else {
            rest
        }
    }
}

/// Whether some message is a tool result.
pub open spec fn has_tool(msgs: Seq<(Seq<char>, Seq<char>)>) -> bool {
    exists|i: int| 0 <= i < msgs.len() && (#[trigger] msgs[i]).0 == "tool"@
}

impl AgentRun {
    /// A run allowing the configured number of rounds, but at least ten.
    pub fn new(configured_iterations: usize, streaming: bool) -> (r: Self)
        ensures
            r.max_iterations == (if configured_iterations < MIN_ITERATIONS { MIN_ITERATIONS } else { configured_iterations }),
            r.streaming == streaming,
            r.iteration == 0,
            r.phase == AgentPhase::Calling,
            r.last_response@.len() == 0,
            r.tool_messages@.len() == 0,
            r.prompt_tokens == 0 && r.completion_tokens == 0,
    {
        AgentRun {
            max_iterations: if configured_iterations < MIN_ITERATIONS {
                MIN_ITERATIONS
            } else {
                configured_iterations
            },
            streaming: streaming,
            iteration: 0,
            phase: AgentPhase::Calling,
            last_response: String::new(),
            tool_messages: Vec::new(),
            prompt_tokens: 0,
            completion_tokens: 0,
        }
    }

    /// The next model call: with the tools while rounds remain (streamed only for the first
    /// call of a streaming run), without them once the run is forcing an answer.
    pub fn request(&self) -> (r: AgentRequest)
        ensures
            r == (match self.phase {
                AgentPhase::Calling => AgentRequest::WithTools { stream: self.streaming && self.iteration == 0 },
                AgentPhase::Forcing => AgentRequest::TextOnly,
                AgentPhase::Done => AgentRequest::Nothing,
            }),
    {
        match self.phase {
            AgentPhase::Calling => AgentRequest::WithTools { stream: self.streaming && self.iteration == 0 },
            AgentPhase::Forcing => AgentRequest::TextOnly,
            AgentPhase::Done => AgentRequest::Nothing,
        }
    }

    /// The model answered a call with tools: with `tool_calls` calls (the caller runs them and
    /// reports each with `record_tool`), or with text. Another round follows tool calls while
    /// rounds remain; else, or when the text is empty, the run forces a text answer. A text
    /// answer settles the run and is fed to the front end word by word when it streams.
    pub fn on_reply(&mut self, text: String, tool_calls: usize, prompt_tokens: usize, completion_tokens: usize) -> (words: Vec<String>)
        requires
            old(self).phase == AgentPhase::Calling,
            old(self).iteration < old(self).max_iterations,
            old(self).prompt_tokens + prompt_tokens <= usize::MAX,
            old(self).completion_tokens + completion_tokens <= usize::MAX,
        ensures
            final(self).iteration == old(self).iteration + 1,
            final(self).max_iterations == old(self).max_iterations,
            final(self).streaming == old(self).streaming,
            final(self).prompt_tokens == old(self).prompt_tokens + prompt_tokens,
            final(self).completion_tokens == old(self).completion_tokens + completion_tokens,
            final(self).tool_messages@ == old(self).tool_messages@,
            tool_calls > 0 ==> final(self).last_response == old(self).last_response && words@.len() == 0
                && final(self).phase == (if old(self).iteration + 1 < old(self).max_iterations {
                AgentPhase::Calling
            } else {
                AgentPhase::Forcing
            }),
            tool_calls == 0 ==> final(self).last_response == text && strings_view(words@) == streamed_words(
                old(self).streaming,
                text@,
            ) && final(self).phase == (if text@.len() > 0 { AgentPhase::Done } else { AgentPhase::Forcing }),
    {
        self.iteration = self.iteration + 1;
        self.prompt_tokens = self.prompt_tokens + prompt_tokens;
        self.completion_tokens = self.completion_tokens + completion_tokens;
        if tool_calls > 0 {
            self.phase = if self.iteration < self.max_iterations {
                AgentPhase::Calling
            } else {
                AgentPhase::Forcing
            };
            return Vec::new();
        }
        let words = if self.streaming {
            words_of(text.as_str())
        } else {
            let w: Vec<String> = Vec::new();
            assert(strings_view(w@) =~= Seq::<Seq<char>>::empty());
            w
        };
        self.phase = if text.as_str().is_empty() {
            AgentPhase::Forcing
        } else {
            AgentPhase::Done
        };
        self.last_response = text;
        words
    }

    /// A tool call has been run with the given outcome (its output, or its error as text):
    /// the result is cut to size, recorded as the call's two messages, and reported.
    pub fn record_tool(&mut self, call: &ToolCallRef, outcome: Result<String, String>) -> (r: ToolReport)
        requires
            outcome matches Ok(out) ==> cuttable_at(out@, MAX_TOOL_RESULT as int),
            cuttable_at(tool_result_text(outcome_view(outcome)), 200),
        ensures
            r.result@ == tool_result_text(outcome_view(outcome)),
            r.summary@ == result_summary(r.result@),
            r.success == !has_prefix(r.result@, "Tool error:"@),
            pairs_view(final(self).tool_messages@) == pairs_view(old(self).tool_messages@) + tool_call_messages(
                call.id@,
                call.name@,
                r.result@,
            ),
            final(self).phase == old(self).phase && final(self).iteration == old(self).iteration,
            final(self).max_iterations == old(self).max_iterations && final(self).streaming == old(self).streaming,
            final(self).last_response == old(self).last_response,
            final(self).prompt_tokens == old(self).prompt_tokens,
            final(self).completion_tokens == old(self).completion_tokens,
    {
        let result = match outcome {
            Ok(out) => truncate_tool_result(out.as_str()),
            Err(e) => {
                let mut t = String::from_str("Tool error: ");
                append_str(&mut t, e.as_str());
                t
            },
        };
        let summary = if result.as_str().len() > 200 {
            let mut s = String::from_str(byte_prefix_of(result.as_str(), 200));
            append_str(&mut s, "...");
            s
        } else {
            result.clone()
        };
        let success = !text_starts_with(result.as_str(), "Tool error:");
        let mut call_text = String::from_str("ToolCall|");
        append_str(&mut call_text, call.id.as_str());
        append_str(&mut call_text, "|");
        append_str(&mut call_text, call.name.as_str());
        let mut result_text = call.id.clone();
        append_str(&mut result_text, "|");
        append_str(&mut result_text, result.as_str());
        let ghost before = pairs_view(self.tool_messages@);
        self.tool_messages.push((String::from_str("assistant"), call_text));
        self.tool_messages.push((String::from_str("tool"), result_text));
        proof {
            reveal_strlit("assistant");
            reveal_strlit("tool");
        }
        assert(pairs_view(self.tool_messages@) =~= before + tool_call_messages(call.id@, call.name@, result@));
        ToolReport { result, summary, success }
    }

    /// The model answered the call without tools, or failed (`None`). A non-empty answer
    /// settles the run and is fed to the front end word by word when it streams; otherwise the
    /// tool results are summed up as the answer, and fed whole.
    pub fn on_forced_reply(&mut self, reply: Option<(String, usize, usize)>) -> (words: Vec<String>)
        requires
            old(self).phase == AgentPhase::Forcing,
            reply matches Some((_, p, c)) ==> old(self).prompt_tokens + p <= usize::MAX && old(self).completion_tokens + c
                <= usize::MAX,
        ensures
            final(self).phase == AgentPhase::Done,
            final(self).iteration == old(self).iteration,
            final(self).max_iterations == old(self).max_iterations && final(self).streaming == old(self).streaming,
            final(self).tool_messages@ == old(self).tool_messages@,
            match reply {
                Some((text, p, c)) if text@.len() > 0 => {
                    &&& final(self).last_response == text
                    &&& final(self).prompt_tokens == old(self).prompt_tokens + p
                    &&& final(self).completion_tokens == old(self).completion_tokens + c
                    &&& strings_view(words@) == streamed_words(old(self).streaming, text@)
                },
                _ => {
                    let msgs = pairs_view(old(self).tool_messages@);
                    &&& final(self).prompt_tokens == old(self).prompt_tokens
                    &&& final(self).completion_tokens == old(self).completion_tokens
                    &&& has_tool(msgs) ==> final(self).last_response@ == tools_summary(msgs) && strings_view(words@) == (
                    if old(self).streaming {
                        seq![tools_summary(msgs)]
                    } else {
                        Seq::empty()
                    })
                    &&& !has_tool(msgs) ==> final(self).last_response == old(self).last_response && words@.len() == 0
                },
            },
    {
        self.phase = AgentPhase::Done;
        match reply {
            Some((text, p, c)) => {
                if !text.as_str().is_empty() {
                    self.prompt_tokens = self.prompt_tokens + p;
                    self.completion_tokens = self.completion_tokens + c;
                    let words = if self.streaming {
                        words_of(text.as_str())
                    } else {
                        let w: Vec<String> = Vec::new();
                        assert(strings_view(w@) =~= Seq::<Seq<char>>::empty());
                        w
                    };
                    self.last_response = text;
                    return words;
                }
            },
            None => {},
        }
        let (found, summary) = summarize_tools(&self.tool_messages);
        let mut words: Vec<String> = Vec::new();
        if found {
            if self.streaming {
                words.push(summary.clone());
                assert(strings_view(words@) =~= seq![summary@]);
            }
            self.last_response = summary;
        }
        words
    }

    /// How the run ends: its answer, or the complaint that there is none.
    pub fn outcome(&self) -> (r: Result<String, String>)
        ensures
            self.last_response@.len() > 0 ==> r == Ok::<String, String>(self.last_response),
            self.last_response@.len() == 0 ==> (r matches Err(e) && e@ == "Agent loop produced no response after "@ + decimal(
                self.max_iterations as nat,
            ) + " iterations"@),
    {
        if !self.last_response.as_str().is_empty() {
            return Ok(self.last_response.clone());
        }
        let mut e = String::from_str("Agent loop produced no response after ");
        append_str(&mut e, decimal_string(self.max_iterations as u64).as_str());
        append_str(&mut e, " iterations");
        Err(e)
    }
}

pub open spec fn outcome_view(o: Result<String, String>) -> Result<Seq<char>, Seq<char>> {
    match o {
        Ok(s) => Ok(s@),
        Err(e) => Err(e@),
    }
}

/// The complaint when a run takes longer than allowed.
pub fn timeout_error(secs: u64) -> (r: String)
    ensures
        r@ == "Agent loop timed out after "@ + decimal(secs as nat) + "s"@,
{
    let mut e = String::from_str("Agent loop timed out after ");
    append_str(&mut e, decimal_string(secs).as_str());
    append_str(&mut e, "s");
    e
}

/// The space-ended pieces of `text`.
pub fn words_of(text: &str) -> (r: Vec<String>)
    ensures
        strings_view(r@) == split_inclusive_spec(text@),
{
    let v = chars_of(text);
    let pieces = crate::wrap::split_inclusive_pieces(&v);
    let mut r: Vec<String> = Vec::new();
    let mut i: usize = 0;
    while i < pieces.len()
        invariant
            i <= pieces@.len(),
            pieces@.len() == split_inclusive_spec(v@).len(),
            forall|j: int| 0 <= j < pieces@.len() ==> (#[trigger] pieces@[j])@ == split_inclusive_spec(v@)[j],
            strings_view(r@) == split_inclusive_spec(v@).take(i as int),
        decreases pieces@.len() - i,
    {
        let ghost before = strings_view(r@);
        r.push(string_of(&pieces[i]));
        assert(strings_view(r@) =~= before.push(pieces@[i as int]@));
        assert(split_inclusive_spec(v@).take(i + 1) =~= split_inclusive_spec(v@).take(i as int).push(split_inclusive_spec(v@)[i as int]));
        i = i + 1;
    }
    assert(split_inclusive_spec(v@).take(pieces@.len() as int) =~= split_inclusive_spec(v@));
    r
}

fn summarize_tools(msgs: &Vec<(String, String)>) -> (r: (bool, String))
    ensures
        r.0 == has_tool(pairs_view(msgs@)),
        r.1@ == tools_summary(pairs_view(msgs@)),
{
    let ghost mv = pairs_view(msgs@);
    let mut found = false;
    let mut out = String::new();
    let mut i: usize = 0;
    proof { reveal_strlit("tool"); reveal_strlit("\n\n---\n\n"); }
    while i < msgs.len()
        invariant
            i <= msgs@.len(),
            mv == pairs_view(msgs@),
            found == has_tool(mv.take(i as int)),
            out@ == tools_summary(mv.take(i as int)),
        decreases msgs@.len() - i,
    {
        let ghost t = mv.take(i + 1);
        assert(t.drop_last() =~= mv.take(i as int));
        assert(t.last() == mv[i as int]);
        if str_eq(msgs[i].0.as_str(), "tool") {
            let content = chars_of(msgs[i].1.as_str());
            let part = match find_char(&content, '|') {
                Some(k) => {
                    proof { lemma_find_from_bounds(content@, seq!['|'], 0); }
                    let cl = content.len();
                    assert(seq!['|'].len() == 1);
                    assert(k + 1 <= cl);
                    let p = slice_chars(&content, k + 1, cl);
                    assert(p@ =~= content@.skip(k + 1));
                    p
                },
                None => content,
            };
            if found {
                append_str(&mut out, "\n\n---\n\n");
            } else {
                out = String::new();
            }
            append_str(&mut out, string_of(&part).as_str());
            assert(has_tool(t)) by {
                assert(t[i as int] == mv[i as int]);
            }
            found = true;
        } else {
            assert(has_tool(t) == has_tool(mv.take(i as int))) by {
                if has_tool(t) {
                    let j = choose|j: int| 0 <= j < t.len() && (#[trigger] t[j]).0 == "tool"@;
                    assert(t[j] == mv.take(i as int)[j]);
                }
                if has_tool(mv.take(i as int)) {
                    let j = choose|j: int| 0 <= j < i && (#[trigger] mv.take(i as int)[j]).0 == "tool"@;
                    assert(t[j] == mv.take(i as int)[j]);
                }
            }
        }
        i = i + 1;
    }
    assert(mv.take(msgs@.len() as int) =~= mv);
    (found, out)
}

// ── keeping long conversations short ──

/// The characters of all messages together.
pub open spec fn total_chars(h: Seq<(Seq<char>, Seq<char>)>) -> nat
    decreases h.len(),
{
    if h.len() == 0 {
        0
    } else {
        total_chars(h.drop_last()) + h.last().1.len()
    }
}

/// Whether the conversation is longer than `threshold` characters (the caller's share of the
/// context size `max_chars`, which must be set) and is to be summed up.
pub fn needs_compaction(history: &Vec<(String, String)>, threshold: usize, max_chars: usize) -> (b: bool)
    ensures
        b == (total_chars(pairs_view(history@)) > threshold && max_chars > 0),
{
    let ghost hv = pairs_view(history@);
    let mut total: u128 = 0;
    let mut i: usize = 0;
    while i < history.len()
        invariant
            i <= history@.len(),
            hv == pairs_view(history@),
            total == total_chars(hv.take(i as int)),
            total <= i * (usize::MAX as int),
        decreases history@.len() - i,
    {
        let n = chars_of(history[i].1.as_str()).len();
        assert(hv.take(i + 1).drop_last() =~= hv.take(i as int));
        assert(hv.take(i + 1).last() == hv[i as int]);
        assert(total + n <= (i + 1) * (usize::MAX as int)) by (nonlinear_arith)
            requires
                total <= i * (usize::MAX as int),
                n <= usize::MAX,
        ;
        assert((i + 1) * (usize::MAX as int) <= (usize::MAX as int) * (usize::MAX as int)) by (nonlinear_arith)
            requires
                i + 1 <= usize::MAX,
        ;
        assert((usize::MAX as int) * (usize::MAX as int) <= u128::MAX) by (nonlinear_arith)
            requires
                usize::MAX <= 0xffff_ffff_ffff_ffff,
        ;
        total = total + n as u128;
        i = i + 1;
    }
    assert(hv.take(history@.len() as int) =~= hv);
    total > threshold as u128 && max_chars > 0
}

/// The older half of the conversation as text: its user and assistant messages as
/// `[role]: content`, separated by blank lines.
pub open spec fn older_text(h: Seq<(Seq<char>, Seq<char>)>, k: int) -> Seq<char>
    decreases k,
{
    if k <= 0 || k > h.len() {
        Seq::empty()
    } else {
        let rest = older_text(h, k - 1);
        let m = h[k - 1];
        if m.0 == "user"@ || m.0 == "assistant"@ {
            let line = "["@ + m.0 + "]: "@ + m.1;
            if !has_kept(h, k - 1) {
                line
            } else {
                rest + "\n\n"@ + line
            }
        } else {
            rest
        }
    }
}

/// Whether a user or assistant message is among the first `k`.
pub open spec fn has_kept(h: Seq<(Seq<char>, Seq<char>)>, k: int) -> bool {
    exists|i: int| 0 <= i < k && i < h.len() && ((#[trigger] h[i]).0 == "user"@ || h[i].0 == "assistant"@)
}

/// The request to sum up the older half (the first half, rounded down) of the conversation,
/// or none when it holds no user or assistant message.
pub open spec fn compaction_prompt_spec(h: Seq<(Seq<char>, Seq<char>)>) -> Option<Seq<char>> {
    if has_kept(h, (h.len() / 2) as int) {
        Some(
            "Summarize this conversation history concisely. Include key decisions, code changes, and important context. Keep under 500 characters.\n\n"@
                + older_text(h, (h.len() / 2) as int),
        )
    } else {
        None
    }
}

pub fn compaction_prompt(history: &Vec<(String, String)>) -> (r: Option<String>)
    ensures
        opt_view(r) == compaction_prompt_spec(pairs_view(history@)),
{
    let ghost hv = pairs_view(history@);
    let split = history.len() / 2;
    let mut text = String::new();
    let mut kept = false;
    let mut i: usize = 0;
    proof {
        reveal_strlit("user");
        reveal_strlit("assistant");
    }
    while i < split
        invariant
            i <= split <= history@.len(),
            hv == pairs_view(history@),
            kept == has_kept(hv, i as int),
            text@ == older_text(hv, i as int),
        decreases split - i,
    {
        proof {
            reveal_strlit("user");
            reveal_strlit("assistant");
        }
        let role = history[i].0.as_str();
        assert(hv[i as int].0 == role@);
        if str_eq(role, "user") || str_eq(role, "assistant") {
            let mut line = String::from_str("[");
            append_str(&mut line, role);
            append_str(&mut line, "]: ");
            append_str(&mut line, history[i].1.as_str());
            if kept {
                append_str(&mut text, "\n\n");
                append_str(&mut text, line.as_str());
            } else {
                text = line;
            }
            assert(has_kept(hv, i + 1));
            kept = true;
        } else {
            assert(has_kept(hv, i + 1) == has_kept(hv, i as int)) by {
                if has_kept(hv, i + 1) {
                    let j = choose|j: int| 0 <= j < i + 1 && j < hv.len() && ((#[trigger] hv[j]).0 == "user"@ || hv[j].0 == "assistant"@);
                    assert(j != i);
                }
            }
        }
        i = i + 1;
    }
    if !kept {
        return None;
    }
    let mut r = String::from_str(
        "Summarize this conversation history concisely. Include key decisions, code changes, and important context. Keep under 500 characters.\n\n",
    );
    append_str(&mut r, text.as_str());
    Some(r)
}

pub open spec fn opt_view(o: Option<String>) -> Option<Seq<char>> {
    match o {
        Some(s) => Some(s@),
        None => None,
    }
}

/// The system message that stands for the summed-up half: the summary, trimmed, under a
/// heading.
pub fn summary_message(summary: &str) -> (r: (String, String))
    ensures
        r.0@ == "system"@,
        r.1@ == "[Earlier conversation summary]\n"@ + crate::text::trim_spec(summary@),
{
    let mut content = String::from_str("[Earlier conversation summary]\n");
    let t = crate::text::trim(summary);
    append_str(&mut content, t.as_str());
    (String::from_str("system"), content)
}

} // verus!
