//! The light markdown of chat messages: each line becomes a list of styled pieces of text.
//! Inline, `**bold**` and `` `code` `` are recognised; a line may be a heading, a table row,
//! a bullet or a numbered item.

use vstd::prelude::*;

use crate::text::{
    chars_of, find_char, find_char_spec, find_spec, find_str, has_prefix, has_suffix, lead_ws_count,
    lemma_find_from_bounds, lemma_lead_ws_bound, occurs_at, slice_chars, starts_with, ends_with, string_of,
    trim_start_spec,
};

verus! {

/// How a piece of text is shown.
#[derive(Debug, Clone, Copy, PartialEq, Eq, Structural)]
pub enum SpanStyle {
    /// The leading indentation, unstyled.
    Indent,
    /// Ordinary text.
    Text,
    /// Text between `**`.
    Bold,
    /// Text between backquotes, in the accent colour.
    Code,
    /// A heading, in the accent colour and bold.
    Heading,
    /// Table rules and pipes, dimmed.
    Dim,
    /// List markers, in the accent colour.
    Accent,
}

/// A piece of text and its style.
pub struct StyledSpan {
    pub text: String,
    pub style: SpanStyle,
}

pub open spec fn spans_view(v: Seq<StyledSpan>) -> Seq<(Seq<char>, SpanStyle)> {
    Seq::new(v.len(), |i: int| (v[i].text@, v[i].style))
}

/// The earliest inline marker of `t`: `**` (bold, two characters) or a backquote (code, one
/// character); bold wins when both start at the same place.
pub open spec fn next_marker(t: Seq<char>) -> Option<(bool, int)> {
    match (find_spec(t, "**"@), find_char_spec(t, '`')) {
        (Some(b), Some(c)) => if b <= c {
            Some((true, b))
        } else {
            Some((false, c))
        },
        (Some(b), None) => Some((true, b)),
        (None, Some(c)) => Some((false, c)),
        (None, None) => None,
    }
}

pub open spec fn marker(bold: bool) -> Seq<char> {
    if bold {
        "**"@
    } else {
        "`"@
    }
}

pub open spec fn marked_style(bold: bool) -> SpanStyle {
    if bold {
        SpanStyle::Bold
    } else {
        SpanStyle::Code
    }
}

pub open spec fn text_before(t: Seq<char>, start: int) -> Seq<(Seq<char>, SpanStyle)> {
    if start > 0 {
        seq![(t.take(start), SpanStyle::Text)]
    } else {
        Seq::empty()
    }
}

/// The pieces of `t`: text up to the earliest marker, the marked text up to the closing marker,
/// and so on; an unclosed marker and what follows it are ordinary text.
pub open spec fn inline_spans(t: Seq<char>) -> Seq<(Seq<char>, SpanStyle)>
    decreases t.len(),
{
    if t.len() == 0 {
        Seq::empty()
    } else {
        match next_marker(t) {
            None => seq![(t, SpanStyle::Text)],
            Some((bold, start)) => {
                let m = marker(bold);
                proof {
                    reveal_strlit("**");
                    reveal_strlit("`");
                    lemma_find_from_bounds(t, "**"@, 0);
                    lemma_find_from_bounds(t, seq!['`'], 0);
                }
                if 0 <= start && start + m.len() <= t.len() {
                    let after = t.skip(start + m.len());
                    match find_spec(after, m) {
                        Some(end) => {
                            proof { lemma_find_from_bounds(after, m, 0); }
                            if 0 <= end && end + m.len() <= after.len() {
                                text_before(t, start) + seq![(after.take(end), marked_style(bold))] + inline_spans(
                                    after.skip(end + m.len()),
                                )
                            } else {
                                Seq::empty()
                            }
                        },
                        None => text_before(t, start) + seq![(t.skip(start), SpanStyle::Text)],
                    }
                } else {
                    Seq::empty()
                }
            },
        }
    }
}

proof fn lemma_next_marker(t: Seq<char>)
    ensures
        next_marker(t) matches Some((bold, start)) ==> 0 <= start && start + marker(bold).len() <= t.len()
            && occurs_at(t, marker(bold), start),
{
    reveal_strlit("**");
    reveal_strlit("`");
    assert(seq!['`'] =~= "`"@);
    lemma_find_from_bounds(t, "**"@, 0);
    lemma_find_from_bounds(t, seq!['`'], 0);
}

fn push_span(out: &mut Vec<StyledSpan>, text: &Vec<char>, style: SpanStyle)
    ensures
        spans_view(final(out)@) == spans_view(old(out)@).push((text@, style)),
{
    out.push(StyledSpan { text: string_of(text), style: style });
    assert(spans_view(out@) =~= spans_view(old(out)@).push((text@, style)));
}

/// Appends the pieces of the inline markdown `text` to `out`.
pub fn parse_inline_markdown(text: &Vec<char>, out: &mut Vec<StyledSpan>)
    ensures
        spans_view(final(out)@) == spans_view(old(out)@) + inline_spans(text@),
{
    let mut rest: Vec<char> = slice_chars(text, 0, text.len());
    assert(rest@ =~= text@);
    proof { reveal_strlit("**"); reveal_strlit("`"); }
    loop
        invariant_except_break
            spans_view(out@) + inline_spans(rest@) == spans_view(old(out)@) + inline_spans(text@),
        ensures
            spans_view(out@) == spans_view(old(out)@) + inline_spans(text@),
        decreases rest@.len(),
    {
        if rest.len() == 0 {
            assert(spans_view(out@) + inline_spans(rest@) =~= spans_view(out@));
            break;
        }
        proof {
            reveal_strlit("**");
            reveal_strlit("`");
            lemma_next_marker(rest@);
        }
        let b = find_str(&rest, "**");
        let c = find_char(&rest, '`');
        let next: Option<(bool, usize)> = match (b, c) {
            (Some(bi), Some(ci)) => if bi <= ci {
                Some((true, bi))
            } else {
                Some((false, ci))
            },
            (Some(bi), None) => Some((true, bi)),
            (None, Some(ci)) => Some((false, ci)),
            (None, None) => None,
        };
        assert(match next {
            Some((bb, s)) => next_marker(rest@) == Some((bb, s as int)),
            None => next_marker(rest@) is None,
        });
        match next {
            None => {
                let ghost before = spans_view(out@);
                push_span(out, &rest, SpanStyle::Text);
                assert(spans_view(out@) =~= before + inline_spans(rest@));
                break;
            },
            Some((bold, start)) => {
                let mlen: usize = if bold { 2 } else { 1 };
                assert(mlen == marker(bold).len());
                let ghost before = spans_view(out@);
                let ghost r0 = rest@;
                if start > 0 {
                    let pre = slice_chars(&rest, 0, start);
                    assert(pre@ =~= rest@.take(start as int));
                    push_span(out, &pre, SpanStyle::Text);
                }
                assert(spans_view(out@) =~= before + text_before(r0, start as int));
                let after = slice_chars(&rest, start + mlen, rest.len());
                assert(after@ =~= r0.skip(start + mlen));
                let close = if bold {
                    find_str(&after, "**")
                } else {
                    find_char(&after, '`')
                };
                assert(seq!['`'] =~= "`"@);
                assert(match close {
                    Some(e) => find_spec(after@, marker(bold)) == Some(e as int),
                    None => find_spec(after@, marker(bold)) is None,
                });
                match close {
                    Some(end) => {
                        proof { lemma_find_from_bounds(after@, marker(bold), 0); }
                        let inner = slice_chars(&after, 0, end);
                        assert(inner@ =~= after@.take(end as int));
                        let style = if bold {
                            SpanStyle::Bold
                        } else {
                            SpanStyle::Code
                        };
                        push_span(out, &inner, style);
                        let next_rest = slice_chars(&after, end + mlen, after.len());
                        assert(next_rest@ =~= after@.skip(end + mlen));
                        assert(inline_spans(r0) == text_before(r0, start as int) + seq![(after@.take(end as int), marked_style(bold))]
                            + inline_spans(next_rest@));
                        assert(spans_view(out@) + inline_spans(next_rest@) =~= before + inline_spans(r0));
                        rest = next_rest;
                    },
                    None => {
                        let tail = slice_chars(&rest, start, rest.len());
                        assert(tail@ =~= r0.skip(start as int));
                        push_span(out, &tail, SpanStyle::Text);
                        assert(spans_view(out@) =~= before + inline_spans(r0));
                        break;
                    },
                }
            },
        }
    }
}

/// The pieces of `s` between the copies of `c` (`str::split`).
pub open spec fn split_char_spec(s: Seq<char>, c: char) -> Seq<Seq<char>>
    decreases s.len(),
{
    match find_char_spec(s, c) {
        Some(k) => {
            proof { lemma_find_from_bounds(s, seq![c], 0); }
            if 0 <= k < s.len() {
                seq![s.take(k)] + split_char_spec(s.skip(k + 1), c)
            } else {
                seq![s]
            }
        },
        None => seq![s],
    }
}

/// The pieces shown for one cell of a table row: a dim pipe, then the cell's inline markdown.
pub open spec fn cell_spans(seg: Seq<char>) -> Seq<(Seq<char>, SpanStyle)> {
    if seg.len() == 0 {
        seq![("|"@, SpanStyle::Dim)]
    } else {
        seq![("|"@, SpanStyle::Dim)] + inline_spans(seg)
    }
}

pub open spec fn row_spans(segs: Seq<Seq<char>>) -> Seq<(Seq<char>, SpanStyle)>
    decreases segs.len(),
{
    if segs.len() == 0 {
        Seq::empty()
    } else {
        cell_spans(segs[0]) + row_spans(segs.drop_first())
    }
}

pub open spec fn is_rule_char(c: char) -> bool {
    c == '|' || c == '-' || c == ':' || c == ' '
}

/// Number of ASCII digits at the start of `s`.
pub open spec fn leading_digits(s: Seq<char>) -> nat
    decreases s.len(),
{
    if s.len() > 0 && '0' <= s[0] <= '9' {
        1 + leading_digits(s.drop_first())
    } else {
        0
    }
}

/// The pieces of a message line: an indent, then by the line's start (after leading
/// whitespace) a heading (`#`, `##` or `###` and a space), a table row (between pipes; a rule
/// when made only of pipes, dashes, colons and spaces), a bullet (`- ` or `* `), a numbered
/// item (digits, a dot and a space), or else the line's inline markdown.
pub open spec fn line_spans(text: Seq<char>) -> Seq<(Seq<char>, SpanStyle)> {
    let t = trim_start_spec(text);
    let d = leading_digits(t);
    seq![("    "@, SpanStyle::Indent)] + if has_prefix(t, "### "@) {
        seq![(t.skip(4), SpanStyle::Heading)]
    } else if has_prefix(t, "## "@) {
        seq![(t.skip(3), SpanStyle::Heading)]
    } else if has_prefix(t, "# "@) {
        seq![(t.skip(2), SpanStyle::Heading)]
    } else if has_prefix(t, "|"@) && has_suffix(t, "|"@) {
        if forall|i: int| 0 <= i < t.len() ==> is_rule_char(#[trigger] t[i]) {
            seq![(t, SpanStyle::Dim)]
        } else {
            row_spans(split_char_spec(t, '|'))
        }
    } else if has_prefix(t, "- "@) || has_prefix(t, "* "@) {
        seq![("\u{2022} "@, SpanStyle::Accent)] + inline_spans(t.skip(2))
    } else if d > 0 && occurs_at(t, ". "@, d as int) {
        seq![(t.take(d + 2int), SpanStyle::Accent)] + inline_spans(t.skip(d + 2int))
    } else {
        inline_spans(text)
    }
}

proof fn lemma_leading_digits(s: Seq<char>, i: int)
    requires
        0 <= i <= s.len(),
        forall|j: int| 0 <= j < i ==> '0' <= #[trigger] s[j] <= '9',
        i < s.len() ==> !('0' <= s[i] <= '9'),
    ensures
        leading_digits(s) == i,
    decreases i,
{
    if i > 0 {
        let t = s.drop_first();
        assert forall|j: int| 0 <= j < i - 1 implies '0' <= #[trigger] t[j] <= '9' by {
            assert(t[j] == s[j + 1]);
        }
        if i - 1 < t.len() {
            assert(t[i - 1] == s[i]);
        }
        lemma_leading_digits(t, i - 1);
    }
}

fn push_str_span(out: &mut Vec<StyledSpan>, text: &str, style: SpanStyle)
    ensures
        spans_view(final(out)@) == spans_view(old(out)@).push((text@, style)),
{
    out.push(StyledSpan { text: String::from_str(text), style: style });
    assert(spans_view(out@) =~= spans_view(old(out)@).push((text@, style)));
}

fn push_table_row(t: &Vec<char>, out: &mut Vec<StyledSpan>)
    ensures
        spans_view(final(out)@) == spans_view(old(out)@) + row_spans(split_char_spec(t@, '|')),
{
    let mut rest = slice_chars(t, 0, t.len());
    assert(rest@ =~= t@);
    proof { reveal_strlit("|"); }
    loop
        invariant_except_break
            spans_view(out@) + row_spans(split_char_spec(rest@, '|')) == spans_view(old(out)@) + row_spans(split_char_spec(t@, '|')),
        ensures
            spans_view(out@) == spans_view(old(out)@) + row_spans(split_char_spec(t@, '|')),
        decreases rest@.len(),
    {
        proof { reveal_strlit("|"); }
        let ghost r0 = rest@;
        let ghost before = spans_view(out@);
        match find_char(&rest, '|') {
            Some(k) => {
                proof { lemma_find_from_bounds(r0, seq!['|'], 0); }
                let seg = slice_chars(&rest, 0, k);
                assert(seg@ =~= r0.take(k as int));
                let next = slice_chars(&rest, k + 1, rest.len());
                assert(next@ =~= r0.skip(k + 1));
                push_str_span(out, "|", SpanStyle::Dim);
                if seg.len() > 0 {
                    parse_inline_markdown(&seg, out);
                }
                let ghost segs = split_char_spec(r0, '|');
                assert(segs == seq![seg@] + split_char_spec(next@, '|'));
                assert(segs[0] == seg@);
                assert(segs.drop_first() =~= split_char_spec(next@, '|'));
                assert(spans_view(out@) =~= before + cell_spans(seg@));
                assert(row_spans(segs) == cell_spans(seg@) + row_spans(split_char_spec(next@, '|')));
                assert(spans_view(out@) + row_spans(split_char_spec(next@, '|')) =~= before + row_spans(segs));
                rest = next;
            },
            None => {
                push_str_span(out, "|", SpanStyle::Dim);
                if rest.len() > 0 {
                    parse_inline_markdown(&rest, out);
                }
                let ghost segs = split_char_spec(r0, '|');
                assert(segs == seq![r0]);
                assert(segs.drop_first() =~= Seq::<Seq<char>>::empty());
                assert(row_spans(segs) == cell_spans(r0) + row_spans(segs.drop_first()));
                assert(spans_view(out@) =~= before + row_spans(segs));
                break;
            },
        }
    }
}

/// The styled pieces of one line of a message (see `line_spans`).
pub fn render_markdown_line(text: &str) -> (r: Vec<StyledSpan>)
    ensures
        spans_view(r@) == line_spans(text@),
{
    let mut out: Vec<StyledSpan> = Vec::new();
    push_str_span(&mut out, "    ", SpanStyle::Indent);
    let v = chars_of(text);
    let k = lead_ws_count(&v);
    proof { lemma_lead_ws_bound(v@); }
    let t = slice_chars(&v, k, v.len());
    assert(t@ =~= trim_start_spec(v@));
    let ghost head = spans_view(out@);
    proof {
        reveal_strlit("### ");
        reveal_strlit("## ");
        reveal_strlit("# ");
        reveal_strlit("|");
        reveal_strlit("- ");
        reveal_strlit("* ");
        reveal_strlit(". ");
    }
    if starts_with(&t, "### ") {
        let rest = slice_chars(&t, 4, t.len());
        assert(rest@ =~= t@.skip(4));
        push_span(&mut out, &rest, SpanStyle::Heading);
        return out;
    }
    if starts_with(&t, "## ") {
        let rest = slice_chars(&t, 3, t.len());
        assert(rest@ =~= t@.skip(3));
        push_span(&mut out, &rest, SpanStyle::Heading);
        return out;
    }
    if starts_with(&t, "# ") {
        let rest = slice_chars(&t, 2, t.len());
        assert(rest@ =~= t@.skip(2));
        push_span(&mut out, &rest, SpanStyle::Heading);
        return out;
    }
    if starts_with(&t, "|") && ends_with(&t, "|") {
        let mut all_rule = true;
        let mut i: usize = 0;
        while i < t.len()
            invariant
                i <= t.len(),
                all_rule == (forall|j: int| 0 <= j < i ==> is_rule_char(#[trigger] t@[j])),
            decreases t.len() - i,
        {
            let c = t[i];
            if !(c == '|' || c == '-' || c == ':' || c == ' ') {
                all_rule = false;
            }
            i = i + 1;
        }
        if all_rule {
            push_span(&mut out, &t, SpanStyle::Dim);
        } else {
            push_table_row(&t, &mut out);
        }
        return out;
    }
    if starts_with(&t, "- ") || starts_with(&t, "* ") {
        push_str_span(&mut out, "\u{2022} ", SpanStyle::Accent);
        let rest = slice_chars(&t, 2, t.len());
        assert(rest@ =~= t@.skip(2));
        parse_inline_markdown(&rest, &mut out);
        return out;
    }
    let mut d: usize = 0;
    while d < t.len() && '0' <= t[d] && t[d] <= '9'
        invariant
            d <= t.len(),
            forall|j: int| 0 <= j < d ==> '0' <= #[trigger] t@[j] <= '9',
        decreases t.len() - d,
    {
        d = d + 1;
    }
    proof { lemma_leading_digits(t@, d as int); }
    let dot = d < t.len() && t.len() - d >= 2 && t[d] == '.' && t[d + 1] == ' ';
    assert(dot == occurs_at(t@, ". "@, d as int)) by {
        if occurs_at(t@, ". "@, d as int) {
            assert(t@.subrange(d as int, d + 2)[0] == t@[d as int]);
            assert(t@.subrange(d as int, d + 2)[1] == t@[d + 1]);
        }
        if dot {
            assert(t@.subrange(d as int, d + 2) =~= ". "@);
        }
    }
    if d > 0 && dot {
        let pre = slice_chars(&t, 0, d + 2);
        assert(pre@ =~= t@.take(d + 2));
        push_span(&mut out, &pre, SpanStyle::Accent);
        let rest = slice_chars(&t, d + 2, t.len());
        assert(rest@ =~= t@.skip(d + 2));
        parse_inline_markdown(&rest, &mut out);
        return out;
    }
    parse_inline_markdown(&v, &mut out);
    out
}

} // verus!
