//! Marking the slash commands in a line of text, so that the front end can show them
//! highlighted.

use vstd::prelude::*;

use crate::render_text::{is_known_command, is_known_command_spec};
use crate::text::{chars_of, find_char, find_char_spec, find_from, lemma_find_from_bounds, slice_chars, string_of};

verus! {

/// The first position at or after `k` holding a space, a newline or a comma (the length when
/// none does).
pub open spec fn stop_from(s: Seq<char>, k: int) -> int
    decreases s.len() - k,
{
    if k < 0 || k >= s.len() {
        s.len() as int
    } else if s[k] == ' ' || s[k] == '\n' || s[k] == ',' {
        k
    } else {
        stop_from(s, k + 1)
    }
}

pub proof fn lemma_stop_bounds(s: Seq<char>, k: int)
    requires
        0 <= k,
    ensures
        k <= stop_from(s, k) <= s.len() || (k > s.len() && stop_from(s, k) == s.len()),
    decreases s.len() - k,
{
    if k < s.len() && !(s[k] == ' ' || s[k] == '\n' || s[k] == ',') {
        lemma_stop_bounds(s, k + 1);
    }
}

/// The length of the known command that starts with the `/` at `k`: the slash must open the
/// text or follow a space, and the command runs to the next space, newline or comma.
pub open spec fn command_at(s: Seq<char>, k: int) -> Option<int> {
    if 0 <= k < s.len() && (k == 0 || s[k - 1] == ' ') {
        let e = stop_from(s.skip(k + 1), 0);
        if is_known_command_spec(s.subrange(k, k + 1 + e)) {
            Some(1 + e)
        } else {
            None
        }
    } else {
        None
    }
}

pub proof fn lemma_command_at_bounds(s: Seq<char>, k: int)
    requires
        0 <= k < s.len(),
    ensures
        command_at(s, k) matches Some(n) ==> 1 <= n && k + n <= s.len(),
{
    lemma_stop_bounds(s.skip(k + 1), 0);
}

/// The line cut into pieces, each marked when it is a known command: text before a command,
/// the command, and so on; a `/` that opens no command stays with the text before it.
pub open spec fn command_spans_spec(s: Seq<char>) -> Seq<(Seq<char>, bool)>
    decreases s.len(),
{
    if s.len() == 0 {
        Seq::empty()
    } else {
        match find_char_spec(s, '/') {
            None => seq![(s, false)],
            Some(k) => {
                proof {
                    lemma_find_from_bounds(s, seq!['/'], 0);
                    if 0 <= k < s.len() {
                        lemma_command_at_bounds(s, k);
                    }
                }
                if 0 <= k < s.len() {
                    match command_at(s, k) {
                        Some(n) => (if k > 0 {
                            seq![(s.take(k), false)]
                        } else {
                            Seq::empty()
                        }) + seq![(s.subrange(k, k + n), true)] + command_spans_spec(s.skip(k + n)),
                        None => seq![(s.take(k + 1), false)] + command_spans_spec(s.skip(k + 1)),
                    }
                } else {
                    Seq::empty()
                }
            },
        }
    }
}

pub open spec fn spans_view(v: Seq<(String, bool)>) -> Seq<(Seq<char>, bool)> {
    Seq::new(v.len(), |i: int| (v[i].0@, v[i].1))
}

fn command_len_at(v: &Vec<char>, k: usize) -> (r: Option<usize>)
    requires
        k < v.len(),
    ensures
        match r {
            Some(n) => command_at(v@, k as int) == Some(n as int),
            None => command_at(v@, k as int) is None,
        },
{
    if !(k == 0 || v[k - 1] == ' ') {
        return None;
    }
    let ghost after = v@.skip(k + 1);
    let mut e: usize = 0;
    while k + 1 + e < v.len() && v[k + 1 + e] != ' ' && v[k + 1 + e] != '\n' && v[k + 1 + e] != ','
        invariant
            k < v.len(),
            k + 1 + e <= v.len(),
            after == v@.skip(k + 1),
            stop_from(after, 0) == stop_from(after, e as int),
        decreases v.len() - (k + 1 + e),
    {
        assert(after[e as int] == v@[k + 1 + e]);
        e = e + 1;
    }
    proof {
        if k + 1 + e < v.len() {
            assert(after[e as int] == v@[k + 1 + e]);
        }
    }
    assert(stop_from(after, 0) == e);
    let cmd = string_of(&slice_chars(v, k, k + 1 + e));
    if is_known_command(cmd.as_str()) {
        Some(1 + e)
    } else {
        None
    }
}

/// The pieces of a line; see `command_spans_spec`.
pub fn command_spans(text: &str) -> (r: Vec<(String, bool)>)
    ensures
        spans_view(r@) == command_spans_spec(text@),
{
    let mut rem = chars_of(text);
    let mut out: Vec<(String, bool)> = Vec::new();
    assert(spans_view(out@) + command_spans_spec(rem@) =~= command_spans_spec(text@));
    while rem.len() > 0
        invariant
            spans_view(out@) + command_spans_spec(rem@) == command_spans_spec(text@),
        decreases rem@.len(),
    {
        let ghost before = spans_view(out@);
        let ghost s = rem@;
        match find_char(&rem, '/') {
            None => {
                out.push((string_of(&rem), false));
                assert(spans_view(out@) =~= before + seq![(s, false)]);
                rem = Vec::new();
                assert(command_spans_spec(rem@) =~= Seq::<(Seq<char>, bool)>::empty());
                assert(spans_view(out@) + command_spans_spec(rem@) =~= before + command_spans_spec(s));
            },
            Some(k) => {
                proof {
                    lemma_find_from_bounds(s, seq!['/'], 0);
                    lemma_command_at_bounds(s, k as int);
                }
                match command_len_at(&rem, k) {
                    Some(n) => {
                        if k > 0 {
                            out.push((string_of(&slice_chars(&rem, 0, k)), false));
                        }
                        out.push((string_of(&slice_chars(&rem, k, k + n)), true));
                        let next = slice_chars(&rem, k + n, rem.len());
                        assert(next@ =~= s.skip(k + n));
                        assert(spans_view(out@) =~= before + (if k > 0 {
                            seq![(s.take(k as int), false)]
                        } else {
                            Seq::empty()
                        }) + seq![(s.subrange(k as int, k + n), true)]);
                        rem = next;
                        assert(spans_view(out@) + command_spans_spec(rem@) =~= before + command_spans_spec(s));
                    },
                    None => {
                        out.push((string_of(&slice_chars(&rem, 0, k + 1)), false));
                        let next = slice_chars(&rem, k + 1, rem.len());
                        assert(next@ =~= s.skip(k + 1));
                        assert(spans_view(out@) =~= before + seq![(s.take(k + 1), false)]);
                        rem = next;
                        assert(spans_view(out@) + command_spans_spec(rem@) =~= before + command_spans_spec(s));
                    },
                }
            },
        }
    }
    assert(command_spans_spec(rem@) =~= Seq::<(Seq<char>, bool)>::empty());
    assert(spans_view(out@) + Seq::<(Seq<char>, bool)>::empty() =~= spans_view(out@));
    out
}

/// Cutting a line into pieces loses and adds nothing: the pieces, one after the other, are
/// the line.
pub open spec fn joined(v: Seq<(Seq<char>, bool)>) -> Seq<char>
    decreases v.len(),
{
    if v.len() == 0 {
        Seq::empty()
    } else {
        v[0].0 + joined(v.skip(1))
    }
}

proof fn lemma_joined_concat(a: Seq<(Seq<char>, bool)>, b: Seq<(Seq<char>, bool)>)
    ensures
        joined(a + b) == joined(a) + joined(b),
    decreases a.len(),
{
    if a.len() == 0 {
        assert(a + b =~= b);
    } else {
        assert((a + b).skip(1) =~= a.skip(1) + b);
        lemma_joined_concat(a.skip(1), b);
        assert(joined(a) + joined(b) =~= a[0].0 + (joined(a.skip(1)) + joined(b)));
    }
}

pub proof fn law_command_spans_cover_line(s: Seq<char>)
    ensures
        joined(command_spans_spec(s)) == s,
    decreases s.len(),
{
    if s.len() > 0 {
        match find_char_spec(s, '/') {
            None => {
                assert(joined(seq![(s, false)]) == s + joined(seq![(s, false)].skip(1)));
                assert(seq![(s, false)].skip(1) =~= Seq::<(Seq<char>, bool)>::empty());
                assert(s + Seq::<char>::empty() =~= s);
            },
            Some(k) => {
                lemma_find_from_bounds(s, seq!['/'], 0);
                lemma_command_at_bounds(s, k);
                match command_at(s, k) {
                    Some(n) => {
                        law_command_spans_cover_line(s.skip(k + n));
                        let head = if k > 0 {
                            seq![(s.take(k), false)]
                        } else {
                            Seq::<(Seq<char>, bool)>::empty()
                        };
                        let mid = seq![(s.subrange(k, k + n), true)];
                        lemma_joined_concat(head + mid, command_spans_spec(s.skip(k + n)));
                        lemma_joined_concat(head, mid);
                        assert(joined(mid) == s.subrange(k, k + n) + joined(mid.skip(1)));
                        assert(mid.skip(1) =~= Seq::<(Seq<char>, bool)>::empty());
                        if k > 0 {
                            assert(joined(head) == s.take(k) + joined(head.skip(1)));
                            assert(head.skip(1) =~= Seq::<(Seq<char>, bool)>::empty());
                        }
                        assert(joined(head) + joined(mid) + s.skip(k + n) =~= s);
                    },
                    None => {
                        law_command_spans_cover_line(s.skip(k + 1));
                        let head = seq![(s.take(k + 1), false)];
                        lemma_joined_concat(head, command_spans_spec(s.skip(k + 1)));
                        assert(joined(head) == s.take(k + 1) + joined(head.skip(1)));
                        assert(head.skip(1) =~= Seq::<(Seq<char>, bool)>::empty());
                        assert(s.take(k + 1) + Seq::<char>::empty() + s.skip(k + 1) =~= s);
                    },
                }
            },
        }
    }
}

} // verus!
