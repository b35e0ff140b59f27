use vstd::prelude::*;
use vstd::std_specs::iter::IteratorSpec;

verus! {

broadcast use vstd::string::group_string_axioms;

/// Appends one character to a `String` (std's `String::push`).
#[verifier::external_body]
pub fn push_char(s: &mut String, c: char)
    ensures
        final(s)@ == old(s)@.push(c),
{
    s.push(c);
}

/// The characters of `s`, in order.
pub fn chars_of(s: &str) -> (v: Vec<char>)
    ensures
        v@ == s@,
{
    let mut v: Vec<char> = Vec::new();
    let mut iter = s.chars();
    loop
        invariant_except_break
            v@ + iter.remaining() == s@,
            iter.obeys_prophetic_iter_laws(),
            iter.decrease() is Some,
        ensures
            v@ == s@,
        decreases iter.decrease()->0,
    {
        match iter.next() {
            Some(c) => {
                v.push(c);
            },
            None => {
                assert(v@ =~= v@ + iter.remaining());
                break;
            },
        }
    }
    v
}

} // verus!

verus! {

/// A `String` holding exactly the characters of `v`.
pub fn string_of(v: &Vec<char>) -> (s: String)
    ensures
        s@ == v@,
{
    let mut s = String::new();
    let mut i: usize = 0;
    while i < v.len()
        invariant
            i <= v.len(),
            s@ == v@.take(i as int),
        decreases v.len() - i,
    {
        push_char(&mut s, v[i]);
        assert(v@.take(i + 1) =~= v@.take(i as int).push(v@[i as int]));
        i = i + 1;
    }
    assert(v@.take(v.len() as int) =~= v@);
    s
}

/// A `String` holding the characters of `v` in the range `[from, to)`.
pub fn string_of_range(v: &Vec<char>, from: usize, to: usize) -> (s: String)
    requires
        from <= to <= v.len(),
    ensures
        s@ == v@.subrange(from as int, to as int),
{
    let mut s = String::new();
    let mut i: usize = from;
    while i < to
        invariant
            from <= i <= to <= v.len(),
            s@ == v@.subrange(from as int, i as int),
        decreases to - i,
    {
        push_char(&mut s, v[i]);
        assert(v@.subrange(from as int, i + 1) =~= v@.subrange(from as int, i as int).push(v@[i as int]));
        i = i + 1;
    }
    s
}

/// Unicode `White_Space`: the characters for which `char::is_whitespace` holds.
pub open spec fn is_ws(c: char) -> bool {
    ||| ('\u{9}' <= c <= '\u{d}')
    ||| c == ' '
    ||| c == '\u{85}'
    ||| c == '\u{a0}'
    ||| c == '\u{1680}'
    ||| ('\u{2000}' <= c <= '\u{200a}')
    ||| c == '\u{2028}'
    ||| c == '\u{2029}'
    ||| c == '\u{202f}'
    ||| c == '\u{205f}'
    ||| c == '\u{3000}'
}

pub fn is_whitespace(c: char) -> (b: bool)
    ensures
        b == is_ws(c),
{
    ('\u{9}' <= c && c <= '\u{d}') || c == ' ' || c == '\u{85}' || c == '\u{a0}' || c == '\u{1680}'
        || ('\u{2000}' <= c && c <= '\u{200a}') || c == '\u{2028}' || c == '\u{2029}'
        || c == '\u{202f}' || c == '\u{205f}' || c == '\u{3000}'
}

/// Number of whitespace characters at the start of `s`.
pub open spec fn lead_ws(s: Seq<char>) -> nat
    decreases s.len(),
{
    if s.len() > 0 && is_ws(s[0]) {
        1 + lead_ws(s.drop_first())
    } else {
        0
    }
}

/// Number of whitespace characters at the end of `s`.
pub open spec fn trail_ws(s: Seq<char>) -> nat
    decreases s.len(),
{
    if s.len() > 0 && is_ws(s.last()) {
        1 + trail_ws(s.drop_last())
    } else {
        0
    }
}

/// `str::trim_start`.
pub open spec fn trim_start_spec(s: Seq<char>) -> Seq<char> {
    s.skip(lead_ws(s) as int)
}

/// `str::trim_end`.
pub open spec fn trim_end_spec(s: Seq<char>) -> Seq<char> {
    s.take(s.len() - trail_ws(s))
}

/// `str::trim`.
pub open spec fn trim_spec(s: Seq<char>) -> Seq<char> {
    trim_end_spec(trim_start_spec(s))
}

pub proof fn lemma_lead_ws_bound(s: Seq<char>)
    ensures
        lead_ws(s) <= s.len(),
    decreases s.len(),
{
    if s.len() > 0 && is_ws(s[0]) {
        lemma_lead_ws_bound(s.drop_first());
    }
}

pub proof fn lemma_trail_ws_bound(s: Seq<char>)
    ensures
        trail_ws(s) <= s.len(),
    decreases s.len(),
{
    if s.len() > 0 && is_ws(s.last()) {
        lemma_trail_ws_bound(s.drop_last());
    }
}

proof fn lemma_lead_ws_step(s: Seq<char>, i: int)
    requires
        0 <= i <= s.len(),
        forall|j: int| 0 <= j < i ==> is_ws(#[trigger] s[j]),
    ensures
        lead_ws(s) == i + lead_ws(s.skip(i)),
    decreases i,
{
    if i == 0 {
        assert(s.skip(0) =~= s);
    } else {
        let t = s.drop_first();
        assert forall|j: int| 0 <= j < i - 1 implies is_ws(#[trigger] t[j]) by {
            assert(t[j] == s[j + 1]);
        }
        lemma_lead_ws_step(t, i - 1);
        assert(t.skip(i - 1) =~= s.skip(i));
    }
}

proof fn lemma_trail_ws_step(s: Seq<char>, i: int)
    requires
        0 <= i <= s.len(),
        forall|j: int| s.len() - i <= j < s.len() ==> is_ws(#[trigger] s[j]),
    ensures
        trail_ws(s) == i + trail_ws(s.take(s.len() - i)),
    decreases i,
{
    if i == 0 {
        assert(s.take(s.len() as int) =~= s);
    } else {
        let t = s.drop_last();
        assert forall|j: int| t.len() - (i - 1) <= j < t.len() implies is_ws(#[trigger] t[j]) by {
            assert(t[j] == s[j]);
        }
        lemma_trail_ws_step(t, i - 1);
        assert(t.take(t.len() - (i - 1)) =~= s.take(s.len() - i));
    }
}

/// Index of the first non-whitespace character of `v` (or its length).
pub fn lead_ws_count(v: &Vec<char>) -> (k: usize)
    ensures
        k == lead_ws(v@),
{
    let mut i: usize = 0;
    while i < v.len() && is_whitespace(v[i])
        invariant
            i <= v.len(),
            forall|j: int| 0 <= j < i ==> is_ws(#[trigger] v@[j]),
        decreases v.len() - i,
    {
        i = i + 1;
    }
    proof {
        lemma_lead_ws_step(v@, i as int);
        let r = v@.skip(i as int);
        if r.len() > 0 {
            assert(r[0] == v@[i as int]);
        }
    }
    i
}

/// Number of whitespace characters at the end of `v`.
pub fn trail_ws_count(v: &Vec<char>) -> (k: usize)
    ensures
        k == trail_ws(v@),
{
    let mut i: usize = 0;
    while i < v.len() && is_whitespace(v[v.len() - 1 - i])
        invariant
            i <= v.len(),
            forall|j: int| v.len() - i <= j < v.len() ==> is_ws(#[trigger] v@[j]),
        decreases v.len() - i,
    {
        i = i + 1;
    }
    proof {
        lemma_trail_ws_step(v@, i as int);
        let r = v@.take(v.len() - i);
        if r.len() > 0 {
            assert(r.last() == v@[v.len() - 1 - i]);
        }
    }
    i
}

/// `s.trim()` as characters.
pub fn trim_chars(v: &Vec<char>) -> (r: Vec<char>)
    ensures
        r@ == trim_spec(v@),
{
    let a = lead_ws_count(v);
    let mut t: Vec<char> = Vec::new();
    let mut i = a;
    proof { lemma_lead_ws_bound(v@); }
    while i < v.len()
        invariant
            a <= i <= v.len(),
            t@ == v@.subrange(a as int, i as int),
        decreases v.len() - i,
    {
        t.push(v[i]);
        assert(v@.subrange(a as int, i + 1) =~= v@.subrange(a as int, i as int).push(v@[i as int]));
        i = i + 1;
    }
    assert(t@ =~= trim_start_spec(v@));
    let b = trail_ws_count(&t);
    proof { lemma_trail_ws_bound(t@); }
    let mut r: Vec<char> = Vec::new();
    let mut j: usize = 0;
    while j < t.len() - b
        invariant
            b <= t.len(),
            j <= t.len() - b,
            r@ == t@.take(j as int),
        decreases t.len() - b - j,
    {
        r.push(t[j]);
        assert(t@.take(j + 1) =~= t@.take(j as int).push(t@[j as int]));
        j = j + 1;
    }
    r
}

/// `s.trim()`.
pub fn trim(s: &str) -> (r: String)
    ensures
        r@ == trim_spec(s@),
{
    let v = chars_of(s);
    let t = trim_chars(&v);
    string_of(&t)
}

} // verus!

verus! {

/// `p` occurs in `s` at character position `i`.
pub open spec fn occurs_at(s: Seq<char>, p: Seq<char>, i: int) -> bool {
    0 <= i && i + p.len() <= s.len() && s.subrange(i, i + p.len()) == p
}

/// `s` starts with `p`.
pub open spec fn has_prefix(s: Seq<char>, p: Seq<char>) -> bool {
    occurs_at(s, p, 0)
}

/// `s` ends with `p`.
pub open spec fn has_suffix(s: Seq<char>, p: Seq<char>) -> bool {
    occurs_at(s, p, s.len() - p.len())
}

/// First position at or after `k` where `p` occurs in `s`.
pub open spec fn find_from(s: Seq<char>, p: Seq<char>, k: int) -> Option<int>
    decreases s.len() + 1 - k,
{
    if k < 0 || k + p.len() > s.len() {
        None
    } else if occurs_at(s, p, k) {
        Some(k)
    } else {
        find_from(s, p, k + 1)
    }
}

/// `str::find` in characters: the first position where `p` occurs in `s`.
pub open spec fn find_spec(s: Seq<char>, p: Seq<char>) -> Option<int> {
    find_from(s, p, 0)
}

/// Last position at or before `k` where `p` occurs in `s`.
pub open spec fn rfind_from(s: Seq<char>, p: Seq<char>, k: int) -> Option<int>
    decreases k + 1,
{
    if k < 0 {
        None
    } else if occurs_at(s, p, k) {
        Some(k)
    } else {
        rfind_from(s, p, k - 1)
    }
}

/// `str::rfind` in characters: the last position where `p` occurs in `s`.
pub open spec fn rfind_spec(s: Seq<char>, p: Seq<char>) -> Option<int> {
    rfind_from(s, p, s.len() - p.len())
}

/// Whether `p` occurs at position `i` of `v`.
pub fn matches_at(v: &Vec<char>, p: &Vec<char>, i: usize) -> (b: bool)
    ensures
        b == occurs_at(v@, p@, i as int),
{
    if i > v.len() || p.len() > v.len() - i {
        return false;
    }
    let mut j: usize = 0;
    while j < p.len()
        invariant
            i + p.len() <= v.len(),
            j <= p.len(),
            forall|t: int| 0 <= t < j ==> v@[i + t] == p@[t],
        decreases p.len() - j,
    {
        if v[i + j] != p[j] {
            assert(v@.subrange(i as int, i + p.len())[j as int] != p@[j as int]);
            return false;
        }
        j = j + 1;
    }
    assert(v@.subrange(i as int, i + p.len()) =~= p@);
    true
}

/// Whether `v` starts with `p`.
pub fn starts_with(v: &Vec<char>, p: &str) -> (b: bool)
    ensures
        b == has_prefix(v@, p@),
{
    let pv = chars_of(p);
    matches_at(v, &pv, 0)
}

/// Whether `v` ends with `p`.
pub fn ends_with(v: &Vec<char>, p: &str) -> (b: bool)
    ensures
        b == has_suffix(v@, p@),
{
    let pv = chars_of(p);
    if pv.len() > v.len() {
        return false;
    }
    matches_at(v, &pv, v.len() - pv.len())
}

/// The first position where `p` occurs in `v`.
pub fn find_chars(v: &Vec<char>, p: &Vec<char>) -> (r: Option<usize>)
    ensures
        r matches Some(i) ==> find_spec(v@, p@) == Some(i as int),
        r is None ==> find_spec(v@, p@) is None,
{
    if p.len() > v.len() {
        return None;
    }
    let mut i: usize = 0;
    loop
        invariant
            p.len() <= v.len(),
            i <= v.len() - p.len(),
            find_from(v@, p@, 0) == find_from(v@, p@, i as int),
        decreases v.len() - i,
    {
        if matches_at(v, p, i) {
            return Some(i);
        }
        if i == v.len() - p.len() {
            assert(find_from(v@, p@, i + 1) is None);
            return None;
        }
        i = i + 1;
    }
}

/// The first position where the text `p` occurs in `v`.
pub fn find_str(v: &Vec<char>, p: &str) -> (r: Option<usize>)
    ensures
        r matches Some(i) ==> find_spec(v@, p@) == Some(i as int),
        r is None ==> find_spec(v@, p@) is None,
{
    let pv = chars_of(p);
    find_chars(v, &pv)
}

/// The last position where `p` occurs in `v`.
pub fn rfind_chars(v: &Vec<char>, p: &Vec<char>) -> (r: Option<usize>)
    ensures
        r matches Some(i) ==> rfind_spec(v@, p@) == Some(i as int),
        r is None ==> rfind_spec(v@, p@) is None,
{
    if p.len() > v.len() {
        return None;
    }
    let mut k: usize = v.len() - p.len();
    loop
        invariant
            p.len() <= v.len(),
            k <= v.len() - p.len(),
            rfind_spec(v@, p@) == rfind_from(v@, p@, k as int),
        decreases k,
    {
        if matches_at(v, p, k) {
            return Some(k);
        }
        if k == 0 {
            assert(rfind_from(v@, p@, -1) is None);
            return None;
        }
        k = k - 1;
    }
}

/// Position of the first occurrence of the character `c`.
pub open spec fn find_char_spec(s: Seq<char>, c: char) -> Option<int> {
    find_spec(s, seq![c])
}

/// The first position of `c` in `v`.
pub fn find_char(v: &Vec<char>, c: char) -> (r: Option<usize>)
    ensures
        r matches Some(i) ==> find_char_spec(v@, c) == Some(i as int),
        r is None ==> find_char_spec(v@, c) is None,
{
    let mut p: Vec<char> = Vec::new();
    p.push(c);
    assert(p@ =~= seq![c]);
    find_chars(v, &p)
}

/// The sub-sequence `[from, to)` of `v`.
pub fn slice_chars(v: &Vec<char>, from: usize, to: usize) -> (r: Vec<char>)
    requires
        from <= to <= v.len(),
    ensures
        r@ == v@.subrange(from as int, to as int),
{
    let mut r: Vec<char> = Vec::new();
    let mut i = from;
    while i < to
        invariant
            from <= i <= to <= v.len(),
            r@ == v@.subrange(from as int, i as int),
        decreases to - i,
    {
        r.push(v[i]);
        assert(v@.subrange(from as int, i + 1) =~= v@.subrange(from as int, i as int).push(v@[i as int]));
        i = i + 1;
    }
    r
}

/// `s.chars().take(n)`.
pub open spec fn take_chars_spec(s: Seq<char>, n: int) -> Seq<char> {
    if n < s.len() { s.take(n) } else { s }
}

/// The first `n` characters of `s` (all of it if shorter).
pub fn take_chars(s: &str, n: usize) -> (r: String)
    ensures
        r@ == take_chars_spec(s@, n as int),
{
    let v = chars_of(s);
    let m = if n < v.len() { n } else { v.len() };
    string_of_range(&v, 0, m)
}

/// Splits `s` at the first occurrence of `c`: `splitn(2, c)`.
pub open spec fn split_once_spec(s: Seq<char>, c: char) -> (Seq<char>, Option<Seq<char>>) {
    match find_char_spec(s, c) {
        Some(k) => (s.take(k), Some(s.skip(k + 1))),
        None => (s, None),
    }
}

pub proof fn lemma_find_from_bounds(s: Seq<char>, p: Seq<char>, k: int)
    requires
        0 <= k,
    ensures
        find_from(s, p, k) matches Some(i) ==> k <= i && occurs_at(s, p, i) && (forall|j: int|
            k <= j < i ==> !occurs_at(s, p, j)),
        find_from(s, p, k) is None ==> forall|j: int| k <= j ==> !occurs_at(s, p, j),
    decreases s.len() + 1 - k,
{
    if k < 0 || k + p.len() > s.len() {
    } else if occurs_at(s, p, k) {
    } else {
        lemma_find_from_bounds(s, p, k + 1);
    }
}

/// `s.splitn(2, c)`: the part before the first `c`, and what follows it if there is one.
pub fn split_once(v: &Vec<char>, c: char) -> (r: (Vec<char>, Option<Vec<char>>))
    ensures
        r.0@ == split_once_spec(v@, c).0,
        r.1 is Some == split_once_spec(v@, c).1 is Some,
        r.1 matches Some(t) ==> split_once_spec(v@, c).1 == Some(t@),
{
    match find_char(v, c) {
        Some(k) => {
            proof { lemma_find_from_bounds(v@, seq![c], 0); }
            let a = slice_chars(v, 0, k);
            let b = slice_chars(v, k + 1, v.len());
            assert(a@ =~= v@.take(k as int));
            assert(b@ =~= v@.skip(k + 1));
            (a, Some(b))
        },
        None => {
            let mut a: Vec<char> = Vec::new();
            let mut i: usize = 0;
            while i < v.len()
                invariant
                    i <= v.len(),
                    a@ == v@.take(i as int),
                decreases v.len() - i,
            {
                a.push(v[i]);
                assert(v@.take(i + 1) =~= v@.take(i as int).push(v@[i as int]));
                i = i + 1;
            }
            assert(a@ =~= v@);
            (a, None)
        },
    }
}

} // verus!

verus! {

/// What `str::to_lowercase` returns for the given characters (Unicode lowercase mapping).
pub uninterp spec fn lowercase(s: Seq<char>) -> Seq<char>;

/// What `str::to_uppercase` returns for the given characters (Unicode uppercase mapping).
pub uninterp spec fn uppercase(s: Seq<char>) -> Seq<char>;

/// What `char::is_alphanumeric` answers (Unicode `Alphabetic` or `Numeric`).
pub uninterp spec fn alphanumeric(c: char) -> bool;

/// Calls `str::to_lowercase`; its result is named `lowercase`, a function of the input alone.
#[verifier::external_body]
pub fn to_lowercase(s: &str) -> (r: String)
    ensures
        r@ == lowercase(s@),
{
    s.to_lowercase()
}

/// Calls `str::to_uppercase`; its result is named `uppercase`, a function of the input alone.
#[verifier::external_body]
pub fn to_uppercase(s: &str) -> (r: String)
    ensures
        r@ == uppercase(s@),
{
    s.to_uppercase()
}

/// Calls `char::is_alphanumeric`; its answer is named `alphanumeric`.
#[verifier::external_body]
pub fn is_alphanumeric(c: char) -> (b: bool)
    ensures
        b == alphanumeric(c),
{
    c.is_alphanumeric()
}

/// `char::to_ascii_lowercase`.
pub open spec fn ascii_lower(c: char) -> char {
    if 'A' <= c <= 'Z' {
        ((c as u32) + 32) as char
    } else {
        c
    }
}

pub fn to_ascii_lower(c: char) -> (r: char)
    ensures
        r == ascii_lower(c),
{
    if 'A' <= c && c <= 'Z' {
        let n: u32 = (c as u32) + 32;
        assert(n <= 0x7a);
        n as u8 as char
    } else {
        c
    }
}

/// `str::eq_ignore_ascii_case`.
pub open spec fn eq_ignore_ascii_case_spec(a: Seq<char>, b: Seq<char>) -> bool {
    a.len() == b.len() && forall|i: int| 0 <= i < a.len() ==> ascii_lower(#[trigger] a[i]) == ascii_lower(b[i])
}

pub fn eq_ignore_ascii_case(a: &Vec<char>, b: &Vec<char>) -> (r: bool)
    ensures
        r == eq_ignore_ascii_case_spec(a@, b@),
{
    if a.len() != b.len() {
        return false;
    }
    let mut i: usize = 0;
    while i < a.len()
        invariant
            a.len() == b.len(),
            i <= a.len(),
            forall|j: int| 0 <= j < i ==> ascii_lower(#[trigger] a@[j]) == ascii_lower(b@[j]),
        decreases a.len() - i,
    {
        if to_ascii_lower(a[i]) != to_ascii_lower(b[i]) {
            return false;
        }
        i = i + 1;
    }
    true
}

/// One line of `str::lines`: the text before a `\n`, without a `\r` that ends it.
pub open spec fn strip_cr(s: Seq<char>) -> Seq<char> {
    if s.len() > 0 && s.last() == '\r' {
        s.drop_last()
    } else {
        s
    }
}

/// `str::lines`: split at `\n` (dropping a `\r` just before it); a final line ending is optional.
pub open spec fn lines_spec(s: Seq<char>) -> Seq<Seq<char>>
    decreases s.len(),
{
    if s.len() == 0 {
        seq![]
    } else {
        match find_char_spec(s, '\n') {
            Some(k) => if 0 <= k < s.len() {
                seq![strip_cr(s.take(k))] + lines_spec(s.skip(k + 1))
            } else {
                seq![]
            },
            None => seq![s],
        }
    }
}

/// The lines of `v`, as `str::lines` gives them.
pub fn lines_of(v: &Vec<char>) -> (r: Vec<Vec<char>>)
    ensures
        r@.len() == lines_spec(v@).len(),
        forall|i: int| 0 <= i < r@.len() ==> (#[trigger] r@[i])@ == lines_spec(v@)[i],
{
    let mut out: Vec<Vec<char>> = Vec::new();
    let mut rest: Vec<char> = slice_chars(v, 0, v.len());
    assert(rest@ =~= v@);
    let ghost done: Seq<Seq<char>> = seq![];
    while rest.len() > 0
        invariant
            out@.len() == done.len(),
            forall|i: int| 0 <= i < out@.len() ==> (#[trigger] out@[i])@ == done[i],
            done + lines_spec(rest@) == lines_spec(v@),
        decreases rest.len(),
    {
        let ghost before = rest@;
        match find_char(&rest, '\n') {
            Some(k) => {
                proof { lemma_find_from_bounds(rest@, seq!['\n'], 0); }
                let mut line = slice_chars(&rest, 0, k);
                if line.len() > 0 && line[line.len() - 1] == '\r' {
                    line.pop();
                }
                assert(line@ =~= strip_cr(before.take(k as int)));
                let next = slice_chars(&rest, k + 1, rest.len());
                assert(next@ =~= before.skip(k + 1));
                proof {
                    assert(lines_spec(before) == seq![strip_cr(before.take(k as int))] + lines_spec(before.skip(k + 1)));
                    done = done.push(line@);
                    assert(done + lines_spec(next@) =~= (done.drop_last() + lines_spec(before)));
                }
                out.push(line);
                rest = next;
            },
            None => {
                let line = slice_chars(&rest, 0, rest.len());
                assert(line@ =~= before);
                proof {
                    assert(lines_spec(before) == seq![before]);
                    done = done.push(line@);
                    assert(lines_spec(seq![]) == Seq::<Seq<char>>::empty());
                }
                out.push(line);
                rest = Vec::new();
                proof {
                    assert(done + lines_spec(rest@) =~= done);
                }
            },
        }
    }
    proof {
        assert(lines_spec(rest@) == Seq::<Seq<char>>::empty());
        assert(done =~= lines_spec(v@));
    }
    out
}

} // verus!

verus! {

/// Whether two texts are equal.
pub fn str_eq(a: &str, b: &str) -> (r: bool)
    ensures
        r == (a@ == b@),
{
    let va = chars_of(a);
    let vb = chars_of(b);
    if va.len() != vb.len() {
        return false;
    }
    let mut i: usize = 0;
    while i < va.len()
        invariant
            va.len() == vb.len(),
            va@ == a@,
            vb@ == b@,
            i <= va.len(),
            forall|j: int| 0 <= j < i ==> va@[j] == vb@[j],
        decreases va.len() - i,
    {
        if va[i] != vb[i] {
            assert(va@[i as int] != vb@[i as int]);
            assert(a@ != b@);
            return false;
        }
        i = i + 1;
    }
    assert(va@ =~= vb@);
    true
}

/// Whether the characters of `v` spell the text `b`.
pub fn chars_eq_str(v: &Vec<char>, b: &str) -> (r: bool)
    ensures
        r == (v@ == b@),
{
    let vb = chars_of(b);
    if v.len() != vb.len() {
        return false;
    }
    let mut i: usize = 0;
    while i < v.len()
        invariant
            v.len() == vb.len(),
            vb@ == b@,
            i <= v.len(),
            forall|j: int| 0 <= j < i ==> v@[j] == vb@[j],
        decreases v.len() - i,
    {
        if v[i] != vb[i] {
            assert(v@[i as int] != vb@[i as int]);
            assert(v@ != b@);
            return false;
        }
        i = i + 1;
    }
    assert(v@ =~= vb@);
    true
}

} // verus!

verus! {

/// The value of a string of decimal digits.
pub open spec fn digits_value(s: Seq<char>) -> nat
    decreases s.len(),
{
    if s.len() == 0 {
        0
    } else {
        digits_value(s.drop_last()) * 10 + ((s.last() as u32) - ('0' as u32)) as nat
    }
}

pub open spec fn all_digits(s: Seq<char>) -> bool {
    forall|i: int| 0 <= i < s.len() ==> '0' <= #[trigger] s[i] <= '9'
}

/// `str::parse::<usize>`: an optional `+`, then one or more decimal digits, whose value fits.
pub open spec fn parse_usize_spec(s: Seq<char>) -> Option<nat> {
    let d = if s.len() > 0 && s[0] == '+' { s.drop_first() } else { s };
    if d.len() > 0 && all_digits(d) && digits_value(d) <= usize::MAX {
        Some(digits_value(d))
    } else {
        None
    }
}

proof fn lemma_digits_value_take(s: Seq<char>, i: int)
    requires
        0 <= i < s.len(),
    ensures
        digits_value(s.take(i + 1)) == digits_value(s.take(i)) * 10 + ((s[i] as u32) - ('0' as u32)) as nat,
{
    assert(s.take(i + 1).drop_last() =~= s.take(i));
}

proof fn lemma_digits_value_mono(s: Seq<char>, i: int)
    requires
        0 <= i <= s.len(),
        all_digits(s),
    ensures
        digits_value(s.take(i)) <= digits_value(s),
    decreases s.len() - i,
{
    if i < s.len() {
        lemma_digits_value_take(s, i);
        lemma_digits_value_mono(s, i + 1);
    } else {
        assert(s.take(i) =~= s);
    }
}

/// `s.parse::<usize>().ok()`.
pub fn parse_usize(s: &str) -> (r: Option<usize>)
    ensures
        match r {
            Some(n) => parse_usize_spec(s@) == Some(n as nat),
            None => parse_usize_spec(s@) is None,
        },
{
    let v = chars_of(s);
    let start: usize = if v.len() > 0 && v[0] == '+' { 1 } else { 0 };
    let ghost d = if s@.len() > 0 && s@[0] == '+' { s@.drop_first() } else { s@ };
    assert(d =~= v@.skip(start as int));
    if start >= v.len() {
        return None;
    }
    let mut acc: usize = 0;
    let mut i: usize = start;
    while i < v.len()
        invariant
            start <= i <= v.len(),
            v@ == s@,
            d == (if s@.len() > 0 && s@[0] == '+' { s@.drop_first() } else { s@ }),
            d == v@.skip(start as int),
            forall|j: int| start <= j < i ==> '0' <= #[trigger] v@[j] <= '9',
            acc as nat == digits_value(d.take(i - start)),
        decreases v.len() - i,
    {
        let c = v[i];
        if c < '0' || c > '9' {
            assert(!all_digits(d)) by {
                assert(d[i - start] == c);
            }
            return None;
        }
        proof { lemma_digits_value_take(d, i - start); }
        let digit: usize = ((c as u32) - ('0' as u32)) as usize;
        if acc > (usize::MAX - digit) / 10 {
            proof {
                assert(all_digits(d) ==> digits_value(d.take(i - start + 1)) > usize::MAX) by (nonlinear_arith)
                    requires
                        acc > (usize::MAX - digit) / 10,
                        digits_value(d.take(i - start + 1)) == acc * 10 + digit,
                        digit <= 9,
                ;
                if all_digits(d) {
                    lemma_digits_value_mono(d, i - start + 1);
                }
            }
            return None;
        }
        proof {
            assert(acc * 10 + digit <= usize::MAX) by (nonlinear_arith)
                requires
                    acc <= (usize::MAX - digit) / 10,
                    digit <= 9,
            ;
        }
        acc = acc * 10 + digit;
        i = i + 1;
    }
    assert(d.take(v.len() - start) =~= d);
    assert(all_digits(d)) by {
        assert forall|j: int| 0 <= j < d.len() implies '0' <= #[trigger] d[j] <= '9' by {
            assert(d[j] == v@[j + start]);
        }
    }
    Some(acc)
}

} // verus!

verus! {

pub open spec fn digit_char(d: nat) -> char {
    ((d % 10) + ('0' as nat)) as char
}

/// The decimal representation of `n`, as `format!("{}", n)` writes it.
pub open spec fn decimal(n: nat) -> Seq<char>
    decreases n,
{
    if n < 10 {
        seq![digit_char(n)]
    } else {
        decimal(n / 10).push(digit_char(n % 10))
    }
}

/// `n.to_string()`.
pub fn decimal_string(n: u64) -> (s: String)
    ensures
        s@ == decimal(n as nat),
{
    let mut digits: Vec<char> = Vec::new();
    let mut m: u64 = n;
    loop
        invariant_except_break
            decimal(n as nat) == decimal(m as nat) + digits@.reverse(),
        ensures
            decimal(n as nat) == digits@.reverse(),
        decreases m,
    {
        let d: u8 = (m % 10) as u8;
        let c: char = (d + 48) as char;
        assert(c == digit_char(m as nat));
        if m < 10 {
            digits.push(c);
            assert(digits@.reverse() =~= seq![c] + digits@.drop_last().reverse());
            break;
        }
        assert(decimal(m as nat) == decimal((m / 10) as nat).push(digit_char((m % 10) as nat)));
        digits.push(c);
        assert(digits@.reverse() =~= seq![c] + digits@.drop_last().reverse());
        m = m / 10;
    }
    let mut s = String::new();
    let mut i: usize = digits.len();
    while i > 0
        invariant
            i <= digits.len(),
            s@ == digits@.reverse().take(digits.len() - i),
        decreases i,
    {
        i = i - 1;
        push_char(&mut s, digits[i]);
        assert(digits@.reverse().take(digits.len() - i) =~= digits@.reverse().take(digits.len() - i - 1).push(digits@[i as int]));
    }
    assert(digits@.reverse().take(digits.len() as int) =~= digits@.reverse());
    s
}

/// Appends the text `t` to `s`.
pub fn append_str(s: &mut String, t: &str)
    ensures
        final(s)@ == old(s)@ + t@,
{
    s.append(t);
}

} // verus!

verus! {

/// Number of copies of `c` at the start of `s`.
pub open spec fn lead_run(s: Seq<char>, c: char) -> nat
    decreases s.len(),
{
    if s.len() > 0 && s[0] == c {
        1 + lead_run(s.drop_first(), c)
    } else {
        0
    }
}

/// Number of copies of `c` at the end of `s`.
pub open spec fn trail_run(s: Seq<char>, c: char) -> nat
    decreases s.len(),
{
    if s.len() > 0 && s.last() == c {
        1 + trail_run(s.drop_last(), c)
    } else {
        0
    }
}

/// `str::trim_matches(c)`: `s` without the copies of `c` at either end.
pub open spec fn trim_char_spec(s: Seq<char>, c: char) -> Seq<char> {
    let t = s.skip(lead_run(s, c) as int);
    t.take(t.len() - trail_run(t, c))
}

pub proof fn lemma_lead_run_bound(s: Seq<char>, c: char)
    ensures
        lead_run(s, c) <= s.len(),
    decreases s.len(),
{
    if s.len() > 0 && s[0] == c {
        lemma_lead_run_bound(s.drop_first(), c);
    }
}

pub proof fn lemma_trail_run_bound(s: Seq<char>, c: char)
    ensures
        trail_run(s, c) <= s.len(),
    decreases s.len(),
{
    if s.len() > 0 && s.last() == c {
        lemma_trail_run_bound(s.drop_last(), c);
    }
}

proof fn lemma_lead_run_step(s: Seq<char>, c: char, i: int)
    requires
        0 <= i <= s.len(),
        forall|j: int| 0 <= j < i ==> #[trigger] s[j] == c,
    ensures
        lead_run(s, c) == i + lead_run(s.skip(i), c),
    decreases i,
{
    if i == 0 {
        assert(s.skip(0) =~= s);
    } else {
        let t = s.drop_first();
        assert forall|j: int| 0 <= j < i - 1 implies #[trigger] t[j] == c by {
            assert(t[j] == s[j + 1]);
        }
        lemma_lead_run_step(t, c, i - 1);
        assert(t.skip(i - 1) =~= s.skip(i));
    }
}

proof fn lemma_trail_run_step(s: Seq<char>, c: char, i: int)
    requires
        0 <= i <= s.len(),
        forall|j: int| s.len() - i <= j < s.len() ==> #[trigger] s[j] == c,
    ensures
        trail_run(s, c) == i + trail_run(s.take(s.len() - i), c),
    decreases i,
{
    if i == 0 {
        assert(s.take(s.len() as int) =~= s);
    } else {
        let t = s.drop_last();
        assert forall|j: int| t.len() - (i - 1) <= j < t.len() implies #[trigger] t[j] == c by {
            assert(t[j] == s[j]);
        }
        lemma_trail_run_step(t, c, i - 1);
        assert(t.take(t.len() - (i - 1)) =~= s.take(s.len() - i));
    }
}

/// Number of copies of `c` at the start of `v`.
pub fn lead_run_count(v: &Vec<char>, c: char) -> (k: usize)
    ensures
        k == lead_run(v@, c),
{
    let mut i: usize = 0;
    while i < v.len() && v[i] == c
        invariant
            i <= v.len(),
            forall|j: int| 0 <= j < i ==> #[trigger] v@[j] == c,
        decreases v.len() - i,
    {
        i = i + 1;
    }
    proof {
        lemma_lead_run_step(v@, c, i as int);
        let r = v@.skip(i as int);
        if r.len() > 0 {
            assert(r[0] == v@[i as int]);
        }
    }
    i
}

/// Number of copies of `c` at the end of `v`.
pub fn trail_run_count(v: &Vec<char>, c: char) -> (k: usize)
    ensures
        k == trail_run(v@, c),
{
    let mut i: usize = 0;
    while i < v.len() && v[v.len() - 1 - i] == c
        invariant
            i <= v.len(),
            forall|j: int| v.len() - i <= j < v.len() ==> #[trigger] v@[j] == c,
        decreases v.len() - i,
    {
        i = i + 1;
    }
    proof {
        lemma_trail_run_step(v@, c, i as int);
        let r = v@.take(v.len() - i);
        if r.len() > 0 {
            assert(r.last() == v@[v.len() - 1 - i]);
        }
    }
    i
}

/// `v` without the copies of `c` at either end.
pub fn trim_char(v: &Vec<char>, c: char) -> (r: Vec<char>)
    ensures
        r@ == trim_char_spec(v@, c),
{
    let a = lead_run_count(v, c);
    proof { lemma_lead_run_bound(v@, c); }
    let t = slice_chars(v, a, v.len());
    assert(t@ =~= v@.skip(a as int));
    let b = trail_run_count(&t, c);
    proof { lemma_trail_run_bound(t@, c); }
    let r = slice_chars(&t, 0, t.len() - b);
    assert(r@ =~= t@.take(t.len() - b));
    r
}

} // verus!

verus! {

pub open spec fn hex_digit_char(d: nat) -> char {
    if d % 16 < 10 {
        ((d % 16) + ('0' as nat)) as char
    } else {
        ((d % 16) - 10 + ('a' as nat)) as char
    }
}

/// The lowercase hexadecimal representation of `n`, as `format!("{:x}", n)` writes it.
pub open spec fn lower_hex(n: nat) -> Seq<char>
    decreases n,
{
    if n < 16 {
        seq![hex_digit_char(n)]
    } else {
        lower_hex(n / 16).push(hex_digit_char(n % 16))
    }
}

/// `s` preceded by enough `0`s to be at least `width` characters long.
pub open spec fn zero_pad(s: Seq<char>, width: nat) -> Seq<char> {
    if s.len() < width {
        Seq::new((width - s.len()) as nat, |i: int| '0') + s
    } else {
        s
    }
}

/// The lowercase hex digit of `d`.
fn hex_char(d: u32) -> (c: char)
    requires
        d < 16,
    ensures
        c == hex_digit_char(d as nat),
{
    if d < 10 {
        ((d as u8) + 48) as char
    } else {
        ((d as u8) + 87) as char
    }
}

proof fn lemma_lower_hex_step(m: nat)
    requires
        m >= 16,
    ensures
        lower_hex(m) == lower_hex(m / 16).push(hex_digit_char(m % 16)),
        hex_digit_char(m % 16) == hex_digit_char(m),
{
}

/// The digits of `n` in lowercase hex, least significant first.
fn hex_digits_rev(n: u32) -> (digits: Vec<char>)
    ensures
        lower_hex(n as nat) == digits@.reverse(),
        digits@.len() >= 1,
{
    let mut digits: Vec<char> = Vec::new();
    let mut m: u32 = n;
    loop
        invariant_except_break
            lower_hex(n as nat) == lower_hex(m as nat) + digits@.reverse(),
        ensures
            lower_hex(n as nat) == digits@.reverse(),
            digits@.len() >= 1,
        decreases m,
    {
        let c = hex_char(m % 16);
        if m < 16 {
            assert(c == hex_digit_char(m as nat));
            digits.push(c);
            assert(digits@.reverse() =~= seq![c] + digits@.drop_last().reverse());
            break;
        }
        proof { lemma_lower_hex_step(m as nat); }
        digits.push(c);
        assert(digits@.reverse() =~= seq![c] + digits@.drop_last().reverse());
        m = m / 16;
    }
    digits
}

/// `format!("{:0width$x}", n)`.
pub fn lower_hex_padded(n: u32, width: usize) -> (s: String)
    ensures
        s@ == zero_pad(lower_hex(n as nat), width as nat),
{
    let digits = hex_digits_rev(n);
    let mut s = String::new();
    let mut p: usize = digits.len();
    while p < width
        invariant
            digits.len() <= p <= width || (p == digits.len() && width < p),
            s@ == Seq::new((p - digits.len()) as nat, |i: int| '0'),
        decreases width - p,
    {
        push_char(&mut s, '0');
        assert(s@ =~= Seq::new((p + 1 - digits.len()) as nat, |i: int| '0'));
        p = p + 1;
    }
    let ghost pad = s@;
    let mut i: usize = digits.len();
    while i > 0
        invariant
            i <= digits.len(),
            s@ == pad + digits@.reverse().take(digits.len() - i),
        decreases i,
    {
        i = i - 1;
        push_char(&mut s, digits[i]);
        assert(digits@.reverse().take(digits.len() - i) =~= digits@.reverse().take(digits.len() - i - 1).push(digits@[i as int]));
    }
    assert(digits@.reverse().take(digits.len() as int) =~= digits@.reverse());
    proof {
        if digits.len() < width {
            assert(pad =~= Seq::new((width - digits.len()) as nat, |i: int| '0'));
        } else {
            assert(pad =~= Seq::<char>::empty());
        }
    }
    assert(s@ =~= zero_pad(lower_hex(n as nat), width as nat));
    s
}

} // verus!

verus! {

/// Whether the text `s` starts with `p`.
pub fn text_starts_with(s: &str, p: &str) -> (b: bool)
    ensures
        b == has_prefix(s@, p@),
{
    let v = chars_of(s);
    starts_with(&v, p)
}

/// A copy of an optional text.
pub fn clone_opt_string(o: &Option<String>) -> (r: Option<String>)
    ensures
        r == *o,
{
    match o {
        Some(s) => Some(s.clone()),
        None => None,
    }
}

} // verus!

verus! {

/// The decimal representation of a signed integer, as `format!("{}", n)` writes it.
pub open spec fn signed_decimal(n: int) -> Seq<char> {
    if n < 0 {
        "-"@ + decimal((-n) as nat)
    } else {
        decimal(n as nat)
    }
}

/// `n.to_string()` for `i64`.
pub fn signed_decimal_string(n: i64) -> (s: String)
    ensures
        s@ == signed_decimal(n as int),
{
    if n < 0 {
        let m: u64 = (-(n as i128)) as u64;
        let mut s = String::from_str("-");
        proof { reveal_strlit("-"); }
        append_str(&mut s, decimal_string(m).as_str());
        s
    } else {
        decimal_string(n as u64)
    }
}

} // verus!

verus! {

/// `str::replace` from position `k` on: the occurrences of `p`, taken left to right without
/// overlap, each replaced by `r`.
pub open spec fn replace_from(s: Seq<char>, p: Seq<char>, r: Seq<char>, k: int) -> Seq<char>
    decreases s.len() - k,
{
    if k < 0 || k >= s.len() || p.len() == 0 {
        s.skip(k)
    } else if occurs_at(s, p, k) {
        r + replace_from(s, p, r, k + p.len())
    } else {
        seq![s[k]] + replace_from(s, p, r, k + 1)
    }
}

/// `s.replace(p, r)` for a non-empty `p`.
pub fn replace_all(s: &str, p: &str, r: &str) -> (out: String)
    requires
        p@.len() > 0,
    ensures
        out@ == replace_from(s@, p@, r@, 0),
{
    let v = chars_of(s);
    let pv = chars_of(p);
    let rv = chars_of(r);
    let mut out: Vec<char> = Vec::new();
    let mut i: usize = 0;
    while i < v.len()
        invariant
            i <= v.len(),
            v@ == s@,
            pv@ == p@,
            rv@ == r@,
            pv@.len() > 0,
            out@ + replace_from(v@, pv@, rv@, i as int) == replace_from(v@, pv@, rv@, 0),
        decreases v.len() - i,
    {
        if matches_at(&v, &pv, i) {
            let ghost before = out@;
            let mut j: usize = 0;
            while j < rv.len()
                invariant
                    j <= rv.len(),
                    out@ == before + rv@.take(j as int),
                decreases rv.len() - j,
            {
                out.push(rv[j]);
                assert(rv@.take(j + 1) =~= rv@.take(j as int).push(rv@[j as int]));
                j = j + 1;
            }
            assert(rv@.take(rv.len() as int) =~= rv@);
            assert(before + replace_from(v@, pv@, rv@, i as int) =~= out@ + replace_from(
                v@,
                pv@,
                rv@,
                i + pv.len(),
            ));
            i = i + pv.len();
        } else {
            let ghost before = out@;
            out.push(v[i]);
            assert(before + replace_from(v@, pv@, rv@, i as int) =~= out@ + replace_from(v@, pv@, rv@, i + 1));
            i = i + 1;
        }
    }
    assert(replace_from(v@, pv@, rv@, i as int) =~= Seq::<char>::empty());
    assert(out@ + Seq::<char>::empty() =~= out@);
    string_of(&out)
}

} // verus!
