//! Word wrapping of message text to the terminal width: by display width in the message
//! view, by bytes in the simple chat view.

use unicode_width::UnicodeWidthStr;
use vstd::prelude::*;

use crate::markdown::split_char_spec;
use crate::render_text::byte_len;
use crate::text::{
    append_str, chars_of, find_char, find_char_spec, lemma_find_from_bounds, slice_chars, string_of, trim_chars,
    trim_end_spec, trail_ws_count, lemma_trail_ws_bound,
};

verus! {

/// The number of terminal columns `UnicodeWidthStr::width` gives a text.
pub uninterp spec fn display_width(s: Seq<char>) -> usize;

/// Calls `UnicodeWidthStr::width`.
#[verifier::external_body]
fn text_width(s: &str) -> (w: usize)
    ensures
        w == display_width(s@),
{
    UnicodeWidthStr::width(s)
}

/// `s.split_inclusive(' ')`: pieces that each end with a space, except perhaps the last.
pub open spec fn split_inclusive_spec(s: Seq<char>) -> Seq<Seq<char>>
    decreases s.len(),
{
    if s.len() == 0 {
        Seq::empty()
    } else {
        match find_char_spec(s, ' ') {
            Some(k) => {
                proof { lemma_find_from_bounds(s, seq![' '], 0); }
                if 0 <= k < s.len() {
                    seq![s.take(k + 1)] + split_inclusive_spec(s.skip(k + 1))
                } else {
                    seq![s]
                }
            },
            None => seq![s],
        }
    }
}

/// Greedy filling: each piece goes on the current line unless the line already holds text
/// and the piece would take it beyond `w` columns; full lines are kept without trailing
/// whitespace.
pub open spec fn fill_lines(
    words: Seq<Seq<char>>,
    w: int,
    lines: Seq<Seq<char>>,
    cur: Seq<char>,
    cur_w: int,
) -> Seq<Seq<char>>
    decreases words.len(),
{
    if words.len() == 0 {
        if cur.len() > 0 {
            lines.push(trim_end_spec(cur))
        } else {
            lines
        }
    } else {
        let word = words[0];
        let ww = display_width(word) as int;
        if cur_w + ww > w && cur.len() > 0 {
            fill_lines(words.drop_first(), w, lines.push(trim_end_spec(cur)), word, ww)
        } else {
            fill_lines(words.drop_first(), w, lines, cur + word, cur_w + ww)
        }
    }
}

/// `text` wrapped to `max_width` columns, but never fewer than 20: the text itself when it
/// fits, else the greedy filling of its space-ended pieces.
pub open spec fn wrap_spec(text: Seq<char>, max_width: int) -> Seq<Seq<char>> {
    let w = if max_width < 20 { 20 } else { max_width };
    if display_width(text) <= w {
        seq![text]
    } else {
        fill_lines(split_inclusive_spec(text), w, Seq::empty(), Seq::empty(), 0)
    }
}

pub open spec fn strings_view(v: Seq<String>) -> Seq<Seq<char>> {
    Seq::new(v.len(), |i: int| v[i]@)
}

pub(crate) fn split_inclusive_pieces(v: &Vec<char>) -> (r: Vec<Vec<char>>)
    ensures
        r@.len() == split_inclusive_spec(v@).len(),
        forall|i: int| 0 <= i < r@.len() ==> (#[trigger] r@[i])@ == split_inclusive_spec(v@)[i],
        forall|i: int| 0 <= i < r@.len() ==> (#[trigger] r@[i])@.len() > 0,
{
    let mut out: Vec<Vec<char>> = Vec::new();
    let mut rest = slice_chars(v, 0, v.len());
    assert(rest@ =~= v@);
    let ghost mut done: Seq<Seq<char>> = Seq::empty();
    while rest.len() > 0
        invariant
            out@.len() == done.len(),
            forall|j: int| 0 <= j < out@.len() ==> (#[trigger] out@[j])@ == done[j],
            forall|j: int| 0 <= j < out@.len() ==> (#[trigger] out@[j])@.len() > 0,
            done + split_inclusive_spec(rest@) == split_inclusive_spec(v@),
        decreases rest@.len(),
    {
        let ghost r0 = rest@;
        match find_char(&rest, ' ') {
            Some(k) => {
                proof { lemma_find_from_bounds(r0, seq![' '], 0); }
                let piece = slice_chars(&rest, 0, k + 1);
                assert(piece@ =~= r0.take(k + 1));
                let next = slice_chars(&rest, k + 1, rest.len());
                assert(next@ =~= r0.skip(k + 1));
                proof {
                    assert(done.push(piece@) + split_inclusive_spec(next@) =~= done + split_inclusive_spec(r0));
                    done = done.push(piece@);
                }
                out.push(piece);
                rest = next;
            },
            None => {
                let piece = slice_chars(&rest, 0, rest.len());
                assert(piece@ =~= r0);
                proof {
                    assert(done.push(piece@) =~= done + split_inclusive_spec(r0));
                    done = done.push(piece@);
                }
                out.push(piece);
                rest = Vec::new();
                assert(split_inclusive_spec(rest@) =~= Seq::<Seq<char>>::empty());
                assert(done + split_inclusive_spec(rest@) =~= done);
            },
        }
    }
    assert(done + split_inclusive_spec(rest@) =~= done);
    out
}

/// `text` wrapped to `max_width` display columns (at least 20), breaking after spaces.
pub fn wrap_text(text: &str, max_width: usize) -> (r: Vec<String>)
    ensures
        strings_view(r@) == wrap_spec(text@, max_width as int),
{
    let w: usize = if max_width < 20 { 20 } else { max_width };
    if text_width(text) <= w {
        let mut r: Vec<String> = Vec::new();
        r.push(String::from_str(text));
        assert(strings_view(r@) =~= seq![text@]);
        return r;
    }
    let v = chars_of(text);
    let words = split_inclusive_pieces(&v);
    let ghost ws = split_inclusive_spec(v@);
    let mut lines: Vec<String> = Vec::new();
    let mut cur: Vec<char> = Vec::new();
    let mut cur_w: usize = 0;
    let mut i: usize = 0;
    assert(ws.skip(0) =~= ws);
    assert(strings_view(lines@) =~= Seq::<Seq<char>>::empty());
    assert(cur@ =~= Seq::<char>::empty());
    while i < words.len()
        invariant
            i <= words@.len(),
            words@.len() == ws.len(),
            forall|j: int| 0 <= j < words@.len() ==> (#[trigger] words@[j])@ == ws[j],
            forall|j: int| 0 <= j < words@.len() ==> (#[trigger] words@[j])@.len() > 0,
            cur@.len() == 0 ==> cur_w == 0,
            fill_lines(ws.skip(i as int), w as int, strings_view(lines@), cur@, cur_w as int) == fill_lines(
                ws,
                w as int,
                Seq::empty(),
                Seq::empty(),
                0,
            ),
        decreases words@.len() - i,
    {
        let word = &words[i];
        let ws_word = string_of(word);
        let ww = text_width(ws_word.as_str());
        assert(ws.skip(i as int)[0] == word@);
        assert(ws.skip(i as int).drop_first() =~= ws.skip(i + 1));
        let ghost lines0 = strings_view(lines@);
        if (cur_w as u128) + (ww as u128) > (w as u128) && cur.len() > 0 {
            let t = trim_end_chars(&cur);
            lines.push(string_of(&t));
            assert(strings_view(lines@) =~= lines0.push(trim_end_spec(cur@)));
            cur = slice_chars(word, 0, word.len());
            assert(cur@ =~= word@);
            cur_w = ww;
        } else {
            let mut j: usize = 0;
            let ghost c0 = cur@;
            while j < word.len()
                invariant
                    j <= word@.len(),
                    cur@ == c0 + word@.take(j as int),
                decreases word@.len() - j,
            {
                cur.push(word[j]);
                assert(word@.take(j + 1) =~= word@.take(j as int).push(word@[j as int]));
                j = j + 1;
            }
            assert(word@.take(word@.len() as int) =~= word@);
            cur_w = cur_w + ww;
        }
        i = i + 1;
    }
    if cur.len() > 0 {
        let ghost lines0 = strings_view(lines@);
        let t = trim_end_chars(&cur);
        lines.push(string_of(&t));
        assert(strings_view(lines@) =~= lines0.push(trim_end_spec(cur@)));
    }
    assert(ws.skip(words@.len() as int) =~= Seq::<Seq<char>>::empty());
    lines
}

/// `v` without whitespace at its end.
fn trim_end_chars(v: &Vec<char>) -> (r: Vec<char>)
    ensures
        r@ == trim_end_spec(v@),
{
    let b = trail_ws_count(v);
    proof { lemma_trail_ws_bound(v@); }
    let r = slice_chars(v, 0, v.len() - b);
    assert(r@ =~= trim_end_spec(v@));
    r
}

// ── by bytes ──

/// Greedy filling by bytes: a word joins the current line, after a space, unless the line
/// holds text and the line, the space and the word would exceed `w` bytes.
pub open spec fn fill_words(words: Seq<Seq<char>>, w: int, lines: Seq<Seq<char>>, cur: Seq<char>) -> Seq<Seq<char>>
    decreases words.len(),
{
    if words.len() == 0 {
        if cur.len() > 0 {
            lines.push(cur)
        } else {
            lines
        }
    } else {
        let word = words[0];
        if byte_len(cur) + byte_len(word) + 1 > w && cur.len() > 0 {
            fill_words(words.drop_first(), w, lines.push(cur), word)
        } else if cur.len() == 0 {
            fill_words(words.drop_first(), w, lines, word)
        } else {
            fill_words(words.drop_first(), w, lines, cur + " "@ + word)
        }
    }
}

/// The lines of one paragraph: a single empty line for an empty paragraph.
pub open spec fn paragraph_lines(p: Seq<char>, w: int) -> Seq<Seq<char>> {
    if p.len() == 0 {
        seq![Seq::empty()]
    } else {
        fill_words(split_char_spec(p, ' '), w, Seq::empty(), Seq::empty())
    }
}

pub open spec fn paragraphs_lines(ps: Seq<Seq<char>>, w: int) -> Seq<Seq<char>>
    decreases ps.len(),
{
    if ps.len() == 0 {
        Seq::empty()
    } else {
        paragraphs_lines(ps.drop_last(), w) + paragraph_lines(ps.last(), w)
    }
}

/// `text` wrapped at `width` bytes (at least 20), paragraph by paragraph, breaking at spaces.
pub open spec fn chat_wrap_spec(text: Seq<char>, width: int) -> Seq<Seq<char>> {
    let w = if width < 20 { 20 } else { width };
    paragraphs_lines(split_char_spec(text, '\n'), w)
}

/// `s.split(c)` as character vectors.
pub fn split_char(v: &Vec<char>, c: char) -> (r: Vec<Vec<char>>)
    ensures
        r@.len() == split_char_spec(v@, c).len(),
        forall|i: int| 0 <= i < r@.len() ==> (#[trigger] r@[i])@ == split_char_spec(v@, c)[i],
{
    let mut out: Vec<Vec<char>> = Vec::new();
    let mut rest = slice_chars(v, 0, v.len());
    assert(rest@ =~= v@);
    let ghost mut done: Seq<Seq<char>> = Seq::empty();
    loop
        invariant_except_break
            out@.len() == done.len(),
            forall|j: int| 0 <= j < out@.len() ==> (#[trigger] out@[j])@ == done[j],
            done + split_char_spec(rest@, c) == split_char_spec(v@, c),
        ensures
            out@.len() == done.len(),
            forall|j: int| 0 <= j < out@.len() ==> (#[trigger] out@[j])@ == done[j],
            done == split_char_spec(v@, c),
        decreases rest@.len(),
    {
        let ghost r0 = rest@;
        match find_char(&rest, c) {
            Some(k) => {
                proof { lemma_find_from_bounds(r0, seq![c], 0); }
                let piece = slice_chars(&rest, 0, k);
                assert(piece@ =~= r0.take(k as int));
                let next = slice_chars(&rest, k + 1, rest.len());
                assert(next@ =~= r0.skip(k + 1));
                proof {
                    assert(done.push(piece@) + split_char_spec(next@, c) =~= done + split_char_spec(r0, c));
                    done = done.push(piece@);
                }
                out.push(piece);
                rest = next;
            },
            None => {
                let piece = slice_chars(&rest, 0, rest.len());
                assert(piece@ =~= r0);
                proof {
                    assert(done.push(piece@) =~= done + split_char_spec(r0, c));
                    done = done.push(piece@);
                }
                out.push(piece);
                break;
            },
        }
    }
    out
}

/// `text` wrapped at `width` bytes, but never fewer than 20 (see `chat_wrap_spec`).
pub fn wrap_text_bytes(text: &str, width: u16) -> (r: Vec<String>)
    ensures
        strings_view(r@) == chat_wrap_spec(text@, width as int),
{
    let w: usize = if width < 20 { 20 } else { width as usize };
    let v = chars_of(text);
    let paras = split_char(&v, '\n');
    let ghost ps = split_char_spec(v@, '\n');
    let mut lines: Vec<String> = Vec::new();
    let mut p: usize = 0;
    while p < paras.len()
        invariant
            p <= paras@.len(),
            paras@.len() == ps.len(),
            forall|j: int| 0 <= j < paras@.len() ==> (#[trigger] paras@[j])@ == ps[j],
            strings_view(lines@) == paragraphs_lines(ps.take(p as int), w as int),
        decreases paras@.len() - p,
    {
        let para = &paras[p];
        assert(ps.take(p + 1).drop_last() =~= ps.take(p as int));
        assert(ps.take(p + 1).last() == para@);
        let ghost l0 = strings_view(lines@);
        if para.len() == 0 {
            lines.push(String::new());
            assert(strings_view(lines@) =~= l0 + paragraph_lines(para@, w as int));
        } else {
            let words = split_char(para, ' ');
            let ghost ws = split_char_spec(para@, ' ');
            let mut cur = String::new();
            let ghost mut added: Seq<Seq<char>> = Seq::empty();
            let mut i: usize = 0;
            assert(ws.skip(0) =~= ws);
            while i < words.len()
                invariant
                    i <= words@.len(),
                    words@.len() == ws.len(),
                    forall|j: int| 0 <= j < words@.len() ==> (#[trigger] words@[j])@ == ws[j],
                    strings_view(lines@) == l0 + added,
                    fill_words(ws.skip(i as int), w as int, added, cur@) == fill_words(ws, w as int, Seq::empty(), Seq::empty()),
                decreases words@.len() - i,
            {
                let word = string_of(&words[i]);
                assert(ws.skip(i as int)[0] == word@);
                assert(ws.skip(i as int).drop_first() =~= ws.skip(i + 1));
                let cl = cur.as_str().len();
                let wl = word.as_str().len();
                if (cl as u128) + (wl as u128) + 1 > (w as u128) && !cur.as_str().is_empty() {
                    let ghost l1 = strings_view(lines@);
                    proof { added = added.push(cur@); }
                    lines.push(cur);
                    assert(strings_view(lines@) =~= l1.push(added.last()));
                    cur = word;
                } else if cur.as_str().is_empty() {
                    cur = word;
                } else {
                    append_str(&mut cur, " ");
                    append_str(&mut cur, word.as_str());
                }
                i = i + 1;
            }
            assert(ws.skip(words@.len() as int) =~= Seq::<Seq<char>>::empty());
            if !cur.as_str().is_empty() {
                let ghost l1 = strings_view(lines@);
                proof { added = added.push(cur@); }
                lines.push(cur);
                assert(strings_view(lines@) =~= l1.push(added.last()));
            }
            assert(strings_view(lines@) =~= l0 + paragraph_lines(para@, w as int));
        }
        p = p + 1;
    }
    assert(ps.take(paras@.len() as int) =~= ps);
    lines
}

} // verus!
