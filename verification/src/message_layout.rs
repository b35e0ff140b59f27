//! How finished messages are laid out as lines for the terminal's scrollback: a heading per
//! message (or one line for a collapsed one), diffs line by line in their colours, fenced code
//! as it is, and other text wrapped to the width. The front end styles the lines.

use vstd::prelude::*;

use crate::app_state::Message;
use crate::render_text::{collapsed_preview, collapsed_preview_spec, format_elapsed, format_elapsed_spec};
use crate::text::{
    append_str, chars_of, find_spec, find_str, has_prefix, lead_ws, lead_ws_count, lemma_lead_ws_bound, lines_of,
    lines_spec, slice_chars, starts_with, str_eq, string_of, trim_start_spec,
};
use crate::wrap::{strings_view, wrap_spec, wrap_text};

verus! {

/// The colour role of a line.
#[derive(Debug, Clone, Copy, PartialEq, Eq, Structural)]
pub enum Tone {
    Text,
    Dim,
    Accent,
    Success,
    Error,
}

/// A laid-out line.
pub enum LayoutLine {
    Blank,
    /// The one line of a collapsed message: its role and preview.
    Collapsed { role: String, preview: String },
    /// The heading of a message: its role, and how long the answer took when known.
    Header { role: String, elapsed: Option<String> },
    /// A line of a diff, indented, in its colour.
    Diff { text: String, tone: Tone },
    /// A line inside a fenced code block.
    Code { text: String },
    /// A wrapped piece of an answer, shown as Markdown.
    Markdown { text: String },
    /// A wrapped piece of other text, shown with its commands marked.
    Plain { text: String },
}

/// What a laid-out line holds, as plain values.
pub enum LineView {
    Blank,
    Collapsed(Seq<char>, Seq<char>),
    Header(Seq<char>, Option<Seq<char>>),
    Diff(Seq<char>, Tone),
    Code(Seq<char>),
    Markdown(Seq<char>),
    Plain(Seq<char>),
}

pub open spec fn line_view(l: LayoutLine) -> LineView {
    match l {
        LayoutLine::Blank => LineView::Blank,
        LayoutLine::Collapsed { role, preview } => LineView::Collapsed(role@, preview@),
        LayoutLine::Header { role, elapsed } => LineView::Header(
            role@,
            match elapsed {
                Some(e) => Some(e@),
                None => None,
            },
        ),
        LayoutLine::Diff { text, tone } => LineView::Diff(text@, tone),
        LayoutLine::Code { text } => LineView::Code(text@),
        LayoutLine::Markdown { text } => LineView::Markdown(text@),
        LayoutLine::Plain { text } => LineView::Plain(text@),
    }
}

pub open spec fn lines_view(v: Seq<LayoutLine>) -> Seq<LineView> {
    Seq::new(v.len(), |i: int| line_view(v[i]))
}

/// The colour of a diff line: additions and removals (not their file headers), hunk marks,
/// file headers, and the rest.
pub open spec fn diff_tone(l: Seq<char>) -> Tone {
    if has_prefix(l, "+"@) && !has_prefix(l, "+++"@) {
        Tone::Success
    } else if has_prefix(l, "-"@) && !has_prefix(l, "---"@) {
        Tone::Error
    } else if has_prefix(l, "@@"@) {
        Tone::Accent
    } else if has_prefix(l, "---"@) || has_prefix(l, "+++"@) {
        Tone::Dim
    } else {
        Tone::Text
    }
}

/// A tool result that shows a diff: it has added or removed lines and a `---` somewhere.
pub open spec fn is_diff_content(role: Seq<char>, content: Seq<char>) -> bool {
    role == "tool_result"@ && (find_spec(content, "\n+"@) is Some || find_spec(content, "\n-"@) is Some) && find_spec(
        content,
        "---"@,
    ) is Some
}

/// A line that opens or closes a fenced code block.
pub open spec fn is_fence(l: Seq<char>) -> bool {
    has_prefix(trim_start_spec(l), "```"@)
}

pub open spec fn wrapped_markdown(l: Seq<char>, cw: int) -> Seq<LineView> {
    Seq::new(wrap_spec(l, cw).len(), |i: int| LineView::Markdown(wrap_spec(l, cw)[i]))
}

pub open spec fn wrapped_plain(l: Seq<char>, cw: int) -> Seq<LineView> {
    Seq::new(wrap_spec(l, cw).len(), |i: int| LineView::Plain(wrap_spec(l, cw)[i]))
}

/// The lines of a message's text lines, and whether a code block is open after them: blank
/// lines are kept only inside code; a diff shows each line indented in its colour; an answer
/// drops its fences, keeps code as it is and wraps the rest as Markdown; other text is
/// wrapped plain.
pub open spec fn body_lines(ls: Seq<Seq<char>>, diff: bool, md: bool, cw: int) -> (Seq<LineView>, bool)
    decreases ls.len(),
{
    if ls.len() == 0 {
        (Seq::empty(), false)
    } else {
        let (prev, code) = body_lines(ls.drop_last(), diff, md, cw);
        let l = ls.last();
        if l.len() == 0 {
            (if code { prev.push(LineView::Blank) } else { prev }, code)
        } else if diff {
            (prev.push(LineView::Diff("    "@ + l, diff_tone(l))), code)
        } else if md {
            if is_fence(l) {
                (prev, !code)
            } else if code {
                (prev.push(LineView::Code(l)), code)
            } else {
                (prev + wrapped_markdown(l, cw), code)
            }
        } else {
            (prev + wrapped_plain(l, cw), code)
        }
    }
}

/// The lines of one message, after a blank line when it is not the first.
pub open spec fn message_lines(m: Message, blank_first: bool, cw: int) -> Seq<LineView> {
    let head: Seq<LineView> = if blank_first { seq![LineView::Blank] } else { Seq::empty() };
    if m.collapsed {
        head.push(LineView::Collapsed(m.role@, collapsed_preview_spec(m.role@, m.content@)))
    } else {
        let h = head.push(
            LineView::Header(
                m.role@,
                match m.elapsed_ms {
                    Some(ms) => Some(format_elapsed_spec(ms as nat)),
                    None => None,
                },
            ),
        );
        if m.content@.len() == 0 {
            h
        } else {
            h + body_lines(
                lines_spec(m.content@),
                is_diff_content(m.role@, m.content@),
                m.role@ == "assistant"@,
                cw,
            ).0
        }
    }
}

/// The lines of a run of messages; the first is preceded by a blank line when asked.
pub open spec fn layout_spec(ms: Seq<Message>, lead_blank: bool, cw: int) -> Seq<LineView>
    decreases ms.len(),
{
    if ms.len() == 0 {
        Seq::empty()
    } else {
        layout_spec(ms.drop_last(), lead_blank, cw) + message_lines(ms.last(), ms.len() > 1 || lead_blank, cw)
    }
}

fn diff_tone_of(v: &Vec<char>) -> (t: Tone)
    ensures
        t == diff_tone(v@),
{
    if starts_with(v, "+") && !starts_with(v, "+++") {
        Tone::Success
    } else if starts_with(v, "-") && !starts_with(v, "---") {
        Tone::Error
    } else if starts_with(v, "@@") {
        Tone::Accent
    } else if starts_with(v, "---") || starts_with(v, "+++") {
        Tone::Dim
    } else {
        Tone::Text
    }
}

fn is_fence_line(v: &Vec<char>) -> (b: bool)
    ensures
        b == is_fence(v@),
{
    let k = lead_ws_count(v);
    proof {
        lemma_lead_ws_bound(v@);
    }
    let t = slice_chars(v, k, v.len());
    assert(t@ =~= trim_start_spec(v@));
    starts_with(&t, "```")
}

fn push_wrapped(out: &mut Vec<LayoutLine>, l: &Vec<char>, cw: usize, md: bool)
    ensures
        lines_view(final(out)@) == lines_view(old(out)@) + if md {
            wrapped_markdown(l@, cw as int)
        } else {
            wrapped_plain(l@, cw as int)
        },
{
    let text = string_of(l);
    let pieces = wrap_text(text.as_str(), cw);
    let ghost pv = strings_view(pieces@);
    let ghost start = lines_view(out@);
    let mut i: usize = 0;
    while i < pieces.len()
        invariant
            i <= pieces@.len(),
            pv == strings_view(pieces@),
            pv == wrap_spec(l@, cw as int),
            lines_view(out@) == start + Seq::new(
                i as nat,
                |j: int|
                    if md {
                        LineView::Markdown(pv[j])
                    } else {
                        LineView::Plain(pv[j])
                    },
            ),
        decreases pieces@.len() - i,
    {
        let ghost before = lines_view(out@);
        if md {
            out.push(LayoutLine::Markdown { text: pieces[i].clone() });
        } else {
            out.push(LayoutLine::Plain { text: pieces[i].clone() });
        }
        assert(lines_view(out@) =~= before.push(if md { LineView::Markdown(pv[i as int]) } else { LineView::Plain(pv[i as int]) }));
        assert(lines_view(out@) =~= start + Seq::new(
            (i + 1) as nat,
            |j: int|
                if md {
                    LineView::Markdown(pv[j])
                } else {
                    LineView::Plain(pv[j])
                },
        ));
        i = i + 1;
    }
    proof {
        if md {
            assert(Seq::new(pieces@.len() as nat, |j: int| if md { LineView::Markdown(pv[j]) } else { LineView::Plain(pv[j]) })
                =~= wrapped_markdown(l@, cw as int));
        } else {
            assert(Seq::new(pieces@.len() as nat, |j: int| if md { LineView::Markdown(pv[j]) } else { LineView::Plain(pv[j]) })
                =~= wrapped_plain(l@, cw as int));
        }
    }
}

fn contains_text(v: &Vec<char>, p: &str) -> (b: bool)
    ensures
        b == (find_spec(v@, p@) is Some),
{
    match find_str(v, p) {
        Some(_) => true,
        None => false,
    }
}

fn push_body(out: &mut Vec<LayoutLine>, content: &Vec<char>, diff: bool, md: bool, cw: usize)
    ensures
        lines_view(final(out)@) == lines_view(old(out)@) + body_lines(lines_spec(content@), diff, md, cw as int).0,
{
    let ls = lines_of(content);
    let ghost lv = lines_spec(content@);
    let ghost start = lines_view(out@);
    let mut code = false;
    let mut i: usize = 0;
    assert(lv.take(0) =~= Seq::<Seq<char>>::empty());
    while i < ls.len()
        invariant
            i <= ls@.len(),
            ls@.len() == lv.len(),
            lv == lines_spec(content@),
            forall|t: int| 0 <= t < ls@.len() ==> (#[trigger] ls@[t])@ == lv[t],
            lines_view(out@) == start + body_lines(lv.take(i as int), diff, md, cw as int).0,
            code == body_lines(lv.take(i as int), diff, md, cw as int).1,
        decreases ls@.len() - i,
    {
        let l = &ls[i];
        assert(l@ == lv[i as int]);
        assert(lv.take(i + 1).drop_last() =~= lv.take(i as int));
        assert(lv.take(i + 1).last() == lv[i as int]);
        let ghost before = lines_view(out@);
        if l.len() == 0 {
            if code {
                out.push(LayoutLine::Blank);
                assert(lines_view(out@) =~= before.push(LineView::Blank));
            }
        } else if diff {
            let mut text = String::from_str("    ");
            append_str(&mut text, string_of(l).as_str());
            let tone = diff_tone_of(l);
            out.push(LayoutLine::Diff { text, tone });
            assert(lines_view(out@) =~= before.push(LineView::Diff("    "@ + l@, diff_tone(l@))));
        } else if md {
            if is_fence_line(l) {
                code = !code;
            } else if code {
                out.push(LayoutLine::Code { text: string_of(l) });
                assert(lines_view(out@) =~= before.push(LineView::Code(l@)));
            } else {
                push_wrapped(out, l, cw, true);
                assert(lines_view(out@) =~= start + body_lines(lv.take(i + 1), diff, md, cw as int).0);
            }
        } else {
            push_wrapped(out, l, cw, false);
            assert(lines_view(out@) =~= start + body_lines(lv.take(i + 1), diff, md, cw as int).0);
        }
        i = i + 1;
    }
    assert(lv.take(ls@.len() as int) =~= lv);
}

/// Lays out a run of messages for a terminal `area_width` columns wide (text is wrapped six
/// columns narrower); see `layout_spec`.
pub fn build_lines_for_messages(messages: &Vec<Message>, area_width: usize, add_leading_blank: bool) -> (r: Vec<LayoutLine>)
    ensures
        lines_view(r@) == layout_spec(messages@, add_leading_blank, (if area_width < 6 { 0 } else { area_width - 6 }) as int),
{
    let cw: usize = if area_width < 6 { 0 } else { area_width - 6 };
    let mut out: Vec<LayoutLine> = Vec::new();
    let mut i: usize = 0;
    assert(lines_view(out@) =~= layout_spec(messages@.take(0), add_leading_blank, cw as int));
    while i < messages.len()
        invariant
            i <= messages@.len(),
            cw == (if area_width < 6 { 0 } else { area_width - 6 }),
            lines_view(out@) == layout_spec(messages@.take(i as int), add_leading_blank, cw as int),
        decreases messages@.len() - i,
    {
        let m = &messages[i];
        assert(messages@.take(i + 1).drop_last() =~= messages@.take(i as int));
        assert(messages@.take(i + 1).last() == messages@[i as int]);
        let ghost start = lines_view(out@);
        if i > 0 || add_leading_blank {
            out.push(LayoutLine::Blank);
        }
        let ghost head: Seq<LineView> = if i > 0 || add_leading_blank { seq![LineView::Blank] } else { Seq::empty() };
        assert(lines_view(out@) =~= start + head);
        let ghost with_head = lines_view(out@);
        if m.collapsed {
            let preview = collapsed_preview(m.role.as_str(), m.content.as_str());
            out.push(LayoutLine::Collapsed { role: m.role.clone(), preview });
            assert(lines_view(out@) =~= start + message_lines(*m, i + 1 > 1 || add_leading_blank, cw as int));
        } else {
            let elapsed = match m.elapsed_ms {
                Some(ms) => Some(format_elapsed(ms)),
                None => None,
            };
            out.push(LayoutLine::Header { role: m.role.clone(), elapsed });
            let ghost with_header = lines_view(out@);
            let content = chars_of(m.content.as_str());
            if content.len() > 0 {
                let diff = str_eq(m.role.as_str(), "tool_result") && (contains_text(&content, "\n+") || contains_text(
                    &content,
                    "\n-",
                )) && contains_text(&content, "---");
                let md = str_eq(m.role.as_str(), "assistant");
                push_body(&mut out, &content, diff, md, cw);
            }
            assert(lines_view(out@) =~= start + message_lines(*m, i + 1 > 1 || add_leading_blank, cw as int));
        }
        i = i + 1;
    }
    assert(messages@.take(messages@.len() as int) =~= messages@);
    out
}

} // verus!
