//! Text shown by the chat front end: previews of collapsed messages, tool summaries,
//! status-bar figures, the command palette and word wrapping.

use vstd::prelude::*;
use vstd::string::StringSliceAdditionalSpecFns;
use vstd::utf8::encode_utf8;

use crate::json::{
    json_get_nested_str, json_get_str, json_has_nested, json_nested_has_field, json_nested_str_field, json_str_field,
    json_valid, parses_as_json,
};
use crate::text::{
    append_str, chars_of, decimal, eq_ignore_ascii_case, eq_ignore_ascii_case_spec, lowercase, to_lowercase, trim_chars, trim_spec, matches_at, split_once, split_once_spec, decimal_string, has_prefix, lines_of, lines_spec, push_char, slice_chars,
    starts_with, str_eq, string_of, take_chars, take_chars_spec,
};

verus! {

/// Number of bytes of the UTF-8 encoding of `s`: what `str::len` returns.
pub open spec fn byte_len(s: Seq<char>) -> usize {
    encode_utf8(s).len() as usize
}

/// The label shown before a message of the given role.
pub open spec fn role_label_spec(role: Seq<char>) -> Seq<char> {
    if role == "user"@ {
        "you"@
    } else if role == "assistant"@ {
        "openLoom"@
    } else if role == "thinking"@ {
        "thinking"@
    } else if role == "tool_call"@ {
        "tool"@
    } else if role == "tool_result"@ {
        "result"@
    } else if role == "skill"@ {
        "skill"@
    } else if role == "mode"@ {
        "mode"@
    } else if role == "error"@ {
        "error"@
    } else {
        role
    }
}

pub fn role_label(role: &str) -> (r: String)
    ensures
        r@ == role_label_spec(role@),
{
    if str_eq(role, "user") {
        String::from_str("you")
    } else if str_eq(role, "assistant") {
        String::from_str("openLoom")
    } else if str_eq(role, "thinking") {
        String::from_str("thinking")
    } else if str_eq(role, "tool_call") {
        String::from_str("tool")
    } else if str_eq(role, "tool_result") {
        String::from_str("result")
    } else if str_eq(role, "skill") {
        String::from_str("skill")
    } else if str_eq(role, "mode") {
        String::from_str("mode")
    } else if str_eq(role, "error") {
        String::from_str("error")
    } else {
        String::from_str(role)
    }
}

/// The first `n` characters of `s`, followed by `" ..."` when `s` is longer than `n` bytes.
pub open spec fn preview_spec(s: Seq<char>, n: nat) -> Seq<char> {
    if byte_len(s) > n {
        take_chars_spec(s, n as int) + " ..."@
    } else {
        take_chars_spec(s, n as int)
    }
}

pub fn preview(s: &str, n: usize) -> (r: String)
    ensures
        r@ == preview_spec(s@, n as nat),
{
    let mut p = take_chars(s, n);
    if s.len() > n {
        append_str(&mut p, " ...");
    }
    p
}

/// Pieces of `s` separated by `/` or `\`.
pub open spec fn is_sep(c: char) -> bool {
    c == '/' || c == '\\'
}

pub open spec fn first_sep_from(s: Seq<char>, k: int) -> Option<int>
    decreases s.len() - k,
{
    if k < 0 || k >= s.len() {
        None
    } else if is_sep(s[k]) {
        Some(k)
    } else {
        first_sep_from(s, k + 1)
    }
}

/// `s.split(['/', '\\'])`.
pub open spec fn split_path(s: Seq<char>) -> Seq<Seq<char>>
    decreases s.len(),
{
    match first_sep_from(s, 0) {
        Some(k) => if 0 <= k < s.len() {
            seq![s.take(k)] + split_path(s.skip(k + 1))
        } else {
            seq![s]
        },
        None => seq![s],
    }
}

/// The pieces joined with `/` between them.
pub open spec fn join_slash(parts: Seq<Seq<char>>) -> Seq<char>
    decreases parts.len(),
{
    if parts.len() == 0 {
        Seq::empty()
    } else if parts.len() == 1 {
        parts[0]
    } else {
        join_slash(parts.drop_last()) + "/"@ + parts.last()
    }
}

proof fn lemma_first_sep_from(s: Seq<char>, k: int)
    requires
        0 <= k,
    ensures
        first_sep_from(s, k) matches Some(i) ==> k <= i < s.len() && is_sep(s[i]) && forall|j: int| k <= j < i ==> !is_sep(#[trigger] s[j]),
        first_sep_from(s, k) is None ==> forall|j: int| k <= j < s.len() ==> !is_sep(#[trigger] s[j]),
    decreases s.len() - k,
{
    if k < s.len() && !is_sep(s[k]) {
        lemma_first_sep_from(s, k + 1);
    }
}

/// The pieces of a path.
pub fn split_path_parts(v: &Vec<char>) -> (r: Vec<Vec<char>>)
    ensures
        r@.len() == split_path(v@).len(),
        forall|i: int| 0 <= i < r@.len() ==> (#[trigger] r@[i])@ == split_path(v@)[i],
{
    let mut out: Vec<Vec<char>> = Vec::new();
    let mut start: usize = 0;
    let mut i: usize = 0;
    let ghost done: Seq<Seq<char>> = seq![];
    assert(v@.skip(0) =~= v@);
    assert(done + split_path(v@) =~= split_path(v@));
    while i < v.len()
        invariant
            start <= i <= v.len(),
            out@.len() == done.len(),
            forall|j: int| 0 <= j < out@.len() ==> (#[trigger] out@[j])@ == done[j],
            forall|j: int| start <= j < i ==> !is_sep(#[trigger] v@[j]),
            done + split_path(v@.skip(start as int)) == split_path(v@),
        decreases v.len() - i,
    {
        if v[i] == '/' || v[i] == '\\' {
            let piece = slice_chars(v, start, i);
            proof {
                let rest = v@.skip(start as int);
                lemma_first_sep_from(rest, 0);
                assert(rest[i - start] == v@[i as int]);
                assert forall|j: int| 0 <= j < i - start implies !is_sep(#[trigger] rest[j]) by {
                    assert(rest[j] == v@[start + j]);
                }
                if first_sep_from(rest, 0) != Some(i - start) {
                    match first_sep_from(rest, 0) {
                        Some(kk) => {
                            if kk < i - start {
                                assert(!is_sep(rest[kk]));
                            }
                        },
                        None => {},
                    }
                }
                assert(first_sep_from(rest, 0) == Some(i - start));
                assert(rest.take(i - start) =~= piece@);
                assert(rest.skip(i - start + 1) =~= v@.skip(i + 1));
                done = done.push(piece@);
                assert(done + split_path(v@.skip(i + 1)) =~= done.drop_last() + split_path(rest));
            }
            out.push(piece);
            start = i + 1;
        }
        i = i + 1;
    }
    let last = slice_chars(v, start, v.len());
    proof {
        let rest = v@.skip(start as int);
        lemma_first_sep_from(rest, 0);
        assert forall|j: int| 0 <= j < rest.len() implies !is_sep(#[trigger] rest[j]) by {
            assert(rest[j] == v@[start + j]);
        }
        if first_sep_from(rest, 0) is Some {
            let kk = first_sep_from(rest, 0)->0;
            assert(is_sep(rest[kk]));
        }
        assert(last@ =~= rest);
        done = done.push(last@);
    }
    out.push(last);
    proof {
        assert(done =~= split_path(v@));
    }
    out
}

/// The given pieces joined with `/`.
pub fn join_with_slash(parts: &Vec<Vec<char>>, from: usize) -> (s: String)
    requires
        from <= parts@.len(),
    ensures
        s@ == join_slash(parts@.skip(from as int).map_values(|p: Vec<char>| p@)),
{
    let mut s = String::new();
    let mut i = from;
    let ghost ps = parts@.map_values(|p: Vec<char>| p@);
    while i < parts.len()
        invariant
            from <= i <= parts@.len(),
            ps == parts@.map_values(|p: Vec<char>| p@),
            s@ == join_slash(ps.subrange(from as int, i as int)),
        decreases parts@.len() - i,
    {
        if i > from {
            push_char(&mut s, '/');
        }
        let piece = string_of(&parts[i]);
        append_str(&mut s, piece.as_str());
        proof {
            let a = ps.subrange(from as int, i + 1);
            assert(a.drop_last() =~= ps.subrange(from as int, i as int));
            reveal_strlit("/");
            if i > from {
                assert(seq!['/'] =~= "/"@);
            } else {
                assert(a.len() == 1);
            }
        }
        i = i + 1;
    }
    assert(ps.subrange(from as int, parts@.len() as int) =~= parts@.skip(from as int).map_values(|p: Vec<char>| p@));
    s
}

/// A path shortened to its last three pieces.
pub open spec fn short_path_spec(path: Seq<char>) -> Seq<char> {
    let parts = split_path(path);
    if parts.len() <= 3 { path } else { join_slash(parts.skip(parts.len() - 3)) }
}

pub fn short_path(path: &str) -> (r: String)
    ensures
        r@ == short_path_spec(path@),
{
    let v = chars_of(path);
    let parts = split_path_parts(&v);
    if parts.len() <= 3 {
        return String::from_str(path);
    }
    let r = join_with_slash(&parts, parts.len() - 3);
    assert(parts@.skip(parts@.len() - 3).map_values(|p: Vec<char>| p@) =~= split_path(v@).skip(split_path(v@).len() - 3));
    r
}

/// A working directory shortened to its last two pieces.
pub open spec fn short_cwd_spec(cwd: Seq<char>) -> Seq<char> {
    let parts = split_path(cwd);
    if parts.len() <= 2 { cwd } else { join_slash(parts.skip(parts.len() - 2)) }
}

pub fn short_cwd(cwd: &str) -> (r: String)
    ensures
        r@ == short_cwd_spec(cwd@),
{
    let v = chars_of(cwd);
    let parts = split_path_parts(&v);
    if parts.len() <= 2 {
        return String::from_str(cwd);
    }
    let r = join_with_slash(&parts, parts.len() - 2);
    assert(parts@.skip(parts@.len() - 2).map_values(|p: Vec<char>| p@) =~= split_path(v@).skip(split_path(v@).len() - 2));
    r
}

/// A response time for the status bar: whole minutes and seconds from a minute on,
/// seconds with one decimal from a second on, milliseconds below that.
pub open spec fn format_elapsed_spec(ms: nat) -> Seq<char> {
    let secs = ms / 1000;
    if secs >= 60 {
        decimal(secs / 60) + "m "@ + decimal(secs % 60) + "s"@
    } else if secs > 0 {
        decimal(secs) + "."@ + decimal((ms % 1000) / 100) + "s"@
    } else {
        decimal(ms) + "ms"@
    }
}

/// From a minute on, a response time reads as whole minutes and the seconds left over, which
/// are fewer than sixty: `Mm Ss` with M * 60 + S the whole seconds elapsed.
pub proof fn law_elapsed_minutes_and_seconds(ms: nat)
    requires
        ms >= 60_000,
    ensures
        exists|m: nat, s: nat|
            #![trigger decimal(m), decimal(s)]
            format_elapsed_spec(ms) == decimal(m) + "m "@ + decimal(s) + "s"@ && m * 60 + s == ms / 1000 && s < 60,
{
    let secs = ms / 1000;
    let m = secs / 60;
    let sec = secs % 60;
    assert(m * 60 + sec == secs);
    assert(format_elapsed_spec(ms) == decimal(m) + "m "@ + decimal(sec) + "s"@);
}

/// From a second up to a minute, a response time reads as its whole seconds (fewer than
/// sixty) and a tenth: `S.Ds`.
pub proof fn law_elapsed_seconds(ms: nat)
    requires
        1_000 <= ms < 60_000,
    ensures
        exists|sec: nat, d: nat|
            #![trigger decimal(sec), decimal(d)]
            format_elapsed_spec(ms) == decimal(sec) + "."@ + decimal(d) + "s"@ && sec * 1000 + d * 100 <= ms
                < sec * 1000 + (d + 1) * 100 && sec < 60 && d < 10,
{
    let sec = ms / 1000;
    let d = (ms % 1000) / 100;
    assert(sec * 1000 + d * 100 <= ms < sec * 1000 + (d + 1) * 100);
    assert(format_elapsed_spec(ms) == decimal(sec) + "."@ + decimal(d) + "s"@);
}

pub fn format_elapsed(ms: u64) -> (r: String)
    ensures
        r@ == format_elapsed_spec(ms as nat),
{
    let secs = ms / 1000;
    if secs >= 60 {
        let mut s = decimal_string(secs / 60);
        append_str(&mut s, "m ");
        let t = decimal_string(secs % 60);
        append_str(&mut s, t.as_str());
        append_str(&mut s, "s");
        s
    } else if secs > 0 {
        let mut s = decimal_string(secs);
        append_str(&mut s, ".");
        let t = decimal_string((ms % 1000) / 100);
        append_str(&mut s, t.as_str());
        append_str(&mut s, "s");
        s
    } else {
        let mut s = decimal_string(ms);
        append_str(&mut s, "ms");
        s
    }
}

/// A context size: whole millions, whole thousands, or the number itself.
pub open spec fn format_context_size_spec(n: nat) -> Seq<char> {
    if n >= 1_000_000 {
        decimal(n / 1_000_000) + "M ctx"@
    } else if n >= 1000 {
        decimal(n / 1000) + "k ctx"@
    } else {
        decimal(n) + " ctx"@
    }
}

pub fn format_context_size(n: usize) -> (r: String)
    ensures
        r@ == format_context_size_spec(n as nat),
{
    let m = n as u64;
    if m >= 1_000_000 {
        let mut s = decimal_string(m / 1_000_000);
        append_str(&mut s, "M ctx");
        s
    } else if m >= 1000 {
        let mut s = decimal_string(m / 1000);
        append_str(&mut s, "k ctx");
        s
    } else {
        let mut s = decimal_string(m);
        append_str(&mut s, " ctx");
        s
    }
}

} // verus!

verus! {

pub open spec fn is_added_line(l: Seq<char>) -> bool {
    has_prefix(l, "+"@) && !has_prefix(l, "+++"@)
}

pub open spec fn is_removed_line(l: Seq<char>) -> bool {
    has_prefix(l, "-"@) && !has_prefix(l, "---"@)
}

/// A one-line summary of a tool result: how many lines a diff adds and removes, else the
/// first sixty characters of a single line, else how many lines there are.
pub open spec fn tool_result_summary_spec(content: Seq<char>) -> Seq<char> {
    let lines = lines_spec(content);
    let added = lines.filter(|l: Seq<char>| is_added_line(l)).len();
    let removed = lines.filter(|l: Seq<char>| is_removed_line(l)).len();
    if added > 0 || removed > 0 {
        "+"@ + decimal(added) + " -"@ + decimal(removed) + " lines"@
    } else if lines.len() == 1 {
        take_chars_spec(content, 60)
    } else {
        decimal(lines.len()) + " lines"@
    }
}

/// The positions of the lines a diff adds: lines that start with `+`, but not with the `+++`
/// of a file header.
pub open spec fn added_positions(lines: Seq<Seq<char>>) -> Set<int> {
    Set::new(|i: int| 0 <= i < lines.len() && has_prefix(lines[i], "+"@) && !has_prefix(lines[i], "+++"@))
}

/// The positions of the lines a diff removes: lines that start with `-`, but not with the
/// `---` of a file header.
pub open spec fn removed_positions(lines: Seq<Seq<char>>) -> Set<int> {
    Set::new(|i: int| 0 <= i < lines.len() && has_prefix(lines[i], "-"@) && !has_prefix(lines[i], "---"@))
}

proof fn lemma_filter_counts_positions(s: Seq<Seq<char>>, f: spec_fn(Seq<char>) -> bool)
    ensures
        Set::new(|i: int| 0 <= i < s.len() && f(s[i])).finite(),
        s.filter(f).len() == Set::new(|i: int| 0 <= i < s.len() && f(s[i])).len(),
    decreases s.len(),
{
    reveal_with_fuel(Seq::filter, 1);
    let all = Set::new(|i: int| 0 <= i < s.len() && f(s[i]));
    if s.len() == 0 {
        assert(all =~= Set::<int>::empty());
    } else {
        let d = s.drop_last();
        lemma_filter_counts_positions(d, f);
        let part = Set::new(|i: int| 0 <= i < d.len() && f(d[i]));
        if f(s.last()) {
            assert(all =~= part.insert(s.len() - 1));
        } else {
            assert(all =~= part);
        }
    }
}

/// A diff's summary counts the lines it adds and removes, file headers (`+++`, `---`) not
/// among them: whenever there is such a line, the summary is `+A -R lines` with A and R the
/// numbers of those lines.
pub proof fn law_tool_result_counts_changes(content: Seq<char>)
    ensures
        added_positions(lines_spec(content)).finite(),
        removed_positions(lines_spec(content)).finite(),
        added_positions(lines_spec(content)).len() > 0 || removed_positions(lines_spec(content)).len() > 0
            ==> tool_result_summary_spec(content) == "+"@ + decimal(added_positions(lines_spec(content)).len()) + " -"@
            + decimal(removed_positions(lines_spec(content)).len()) + " lines"@,
{
    let lines = lines_spec(content);
    let fa = |l: Seq<char>| is_added_line(l);
    let fr = |l: Seq<char>| is_removed_line(l);
    lemma_filter_counts_positions(lines, fa);
    lemma_filter_counts_positions(lines, fr);
    assert(added_positions(lines) =~= Set::new(|i: int| 0 <= i < lines.len() && fa(lines[i])));
    assert(removed_positions(lines) =~= Set::new(|i: int| 0 <= i < lines.len() && fr(lines[i])));
}

pub fn tool_result_summary(content: &str) -> (r: String)
    ensures
        r@ == tool_result_summary_spec(content@),
{
    let v = chars_of(content);
    let ls = lines_of(&v);
    let ghost lines = lines_spec(content@);
    assert(ls@.map_values(|l: Vec<char>| l@) =~= lines);
    let mut added: usize = 0;
    let mut removed: usize = 0;
    let mut i: usize = 0;
    while i < ls.len()
        invariant
            i <= ls@.len(),
            lines == ls@.map_values(|l: Vec<char>| l@),
            added as nat == lines.take(i as int).filter(|l: Seq<char>| is_added_line(l)).len(),
            removed as nat == lines.take(i as int).filter(|l: Seq<char>| is_removed_line(l)).len(),
            added <= i,
            removed <= i,
        decreases ls@.len() - i,
    {
        proof {
            reveal_with_fuel(Seq::filter, 1);
            assert(lines.take(i + 1).drop_last() =~= lines.take(i as int));
            assert(lines.take(i + 1).last() == ls@[i as int]@);
        }
        let l = &ls[i];
        if starts_with(l, "+") && !starts_with(l, "+++") {
            added = added + 1;
        }
        if starts_with(l, "-") && !starts_with(l, "---") {
            removed = removed + 1;
        }
        i = i + 1;
    }
    assert(lines.take(ls@.len() as int) =~= lines);
    if added > 0 || removed > 0 {
        let mut s = String::from_str("+");
        let a = decimal_string(added as u64);
        append_str(&mut s, a.as_str());
        append_str(&mut s, " -");
        let b = decimal_string(removed as u64);
        append_str(&mut s, b.as_str());
        append_str(&mut s, " lines");
        return s;
    }
    if ls.len() == 1 {
        return take_chars(content, 60);
    }
    let mut s = decimal_string(ls.len() as u64);
    append_str(&mut s, " lines");
    s
}

} // verus!

verus! {

/// The text in `o`, or `d` when there is none.
pub open spec fn or_text(o: Option<Seq<char>>, d: Seq<char>) -> Seq<char> {
    match o {
        Some(s) => s,
        None => d,
    }
}

/// A one-line summary of a tool call given as JSON: the tool and its main argument.
pub open spec fn tool_call_summary_spec(content: Seq<char>) -> Seq<char> {
    if json_valid(content) {
        let tool = or_text(json_str_field(content, "tool"@), "unknown"@);
        let param = |k: Seq<char>| json_nested_str_field(content, "params"@, k);
        if tool == "file_read"@ {
            "Read("@ + short_path_spec(or_text(param("path"@), "?"@)) + ")"@
        } else if tool == "file_write"@ {
            "Write("@ + short_path_spec(or_text(param("path"@), "?"@)) + ")"@
        } else if tool == "file_edit"@ {
            "Update("@ + short_path_spec(or_text(param("path"@), "?"@)) + ")"@
        } else if tool == "shell"@ {
            let cmd = or_text(param("command"@), "?"@);
            if byte_len(cmd) > 50 {
                "Bash("@ + take_chars_spec(cmd, 50) + "...)"@
            } else {
                "Bash("@ + take_chars_spec(cmd, 50) + ")"@
            }
        } else if tool == "file_search"@ || tool == "content_search"@ {
            let q = if json_nested_has_field(content, "params"@, "query"@) {
                param("query"@)
            } else {
                param("pattern"@)
            };
            "Search("@ + or_text(q, "?"@) + ")"@
        } else {
            tool + "()"@
        }
    } else {
        preview_spec(content, 60)
    }
}

fn text_or(o: Option<String>, d: &str) -> (r: String)
    ensures
        r@ == or_text(match o { Some(s) => Some(s@), None => None }, d@),
{
    match o {
        Some(s) => s,
        None => String::from_str(d),
    }
}

fn wrapped(prefix: &str, inner: &str, suffix: &str) -> (r: String)
    ensures
        r@ == prefix@ + inner@ + suffix@,
{
    let mut s = String::from_str(prefix);
    append_str(&mut s, inner);
    append_str(&mut s, suffix);
    s
}

pub fn tool_call_summary(content: &str) -> (r: String)
    ensures
        r@ == tool_call_summary_spec(content@),
{
    if !parses_as_json(content) {
        return preview(content, 60);
    }
    let tool = text_or(json_get_str(content, "tool"), "unknown");
    let t = tool.as_str();
    if str_eq(t, "file_read") || str_eq(t, "file_write") || str_eq(t, "file_edit") {
        let path = text_or(json_get_nested_str(content, "params", "path"), "?");
        let short = short_path(path.as_str());
        let head = if str_eq(t, "file_read") {
            "Read("
        } else if str_eq(t, "file_write") {
            "Write("
        } else {
            "Update("
        };
        return wrapped(head, short.as_str(), ")");
    }
    if str_eq(t, "shell") {
        let cmd = text_or(json_get_nested_str(content, "params", "command"), "?");
        let truncated = take_chars(cmd.as_str(), 50);
        if cmd.as_str().len() > 50 {
            return wrapped("Bash(", truncated.as_str(), "...)");
        } else {
            return wrapped("Bash(", truncated.as_str(), ")");
        }
    }
    if str_eq(t, "file_search") || str_eq(t, "content_search") {
        let q = if json_has_nested(content, "params", "query") {
            json_get_nested_str(content, "params", "query")
        } else {
            json_get_nested_str(content, "params", "pattern")
        };
        let q = text_or(q, "?");
        return wrapped("Search(", q.as_str(), ")");
    }
    let mut s = String::from_str(t);
    append_str(&mut s, "()");
    s
}

/// The one-line preview of a collapsed message.
pub open spec fn collapsed_preview_spec(role: Seq<char>, content: Seq<char>) -> Seq<char> {
    if role == "tool_call"@ {
        tool_call_summary_spec(content)
    } else if role == "tool_result"@ {
        tool_result_summary_spec(content)
    } else if role == "thinking"@ {
        preview_spec(content, 60)
    } else {
        preview_spec(content, 40)
    }
}

pub fn collapsed_preview(role: &str, content: &str) -> (r: String)
    ensures
        r@ == collapsed_preview_spec(role@, content@),
{
    if str_eq(role, "tool_call") {
        tool_call_summary(content)
    } else if str_eq(role, "tool_result") {
        tool_result_summary(content)
    } else if str_eq(role, "thinking") {
        preview(content, 60)
    } else {
        preview(content, 40)
    }
}

} // verus!

verus! {

/// The slash commands offered by the palette, with their descriptions.
pub open spec fn slash_commands_spec() -> Seq<(Seq<char>, Seq<char>)> {
    seq![
        ("/help"@, "Show help and keybindings"@),
        ("/model"@, "Show model info"@),
        ("/model set"@, "Configure cloud model"@),
        ("/model use"@, "Switch local/cloud/auto"@),
        ("/think"@, "Show/set thinking level"@),
        ("/think none|low|mid|high|max"@, "Set extended thinking"@),
        ("/token"@, "Session token usage and cost"@),
        ("/token summary"@, "Usage by model"@),
        ("/token today"@, "Today's usage"@),
        ("/token history"@, "Recent request history"@),
        ("/cost"@, "Alias for /token"@),
        ("/health"@, "Engine status and diagnostics"@),
        ("/local status"@, "Show local model info"@),
        ("/local set"@, "Configure local model"@),
        ("/local test"@, "Test local model connectivity"@),
        ("/clear"@, "Clear all messages"@),
        ("/theme dark"@, "Switch to dark theme"@),
        ("/theme light"@, "Switch to light theme"@),
        ("/session new"@, "Create a new session"@),
        ("/session list"@, "List all sessions"@),
        ("/session"@, "Resume a session by ID"@),
        ("/memory persona"@, "Show persona summary"@),
        ("/memory events"@, "List recent events"@),
        ("/memory cognitions"@, "List cognitions"@),
        ("/memory search"@, "Search events"@),
        ("/skills list"@, "List registered skills"@),
        ("/skills invoke"@, "Invoke a skill by name"@),
        ("/mode"@, "Show/switch agent mode"@),
        ("/mode chat"@, "Chat mode \u{2014} pure conversation"@),
        ("/mode plan"@, "Plan mode \u{2014} read-only exploration"@),
        ("/mode code"@, "Code mode \u{2014} full agent + tools"@),
        ("/mode assistant"@, "Assistant mode \u{2014} general helper"@),
        ("/config get"@, "Get config values"@),
        ("/config set"@, "Set config values"@),
    ]
}

pub open spec fn pair_views(v: Seq<(&'static str, &'static str)>) -> Seq<(Seq<char>, Seq<char>)> {
    v.map_values(|e: (&'static str, &'static str)| (e.0@, e.1@))
}

pub fn slash_commands() -> (r: Vec<(&'static str, &'static str)>)
    ensures
        pair_views(r@) == slash_commands_spec(),
{
    let mut r: Vec<(&'static str, &'static str)> = Vec::new();
    r.push(("/help", "Show help and keybindings"));
    r.push(("/model", "Show model info"));
    r.push(("/model set", "Configure cloud model"));
    r.push(("/model use", "Switch local/cloud/auto"));
    r.push(("/think", "Show/set thinking level"));
    r.push(("/think none|low|mid|high|max", "Set extended thinking"));
    r.push(("/token", "Session token usage and cost"));
    r.push(("/token summary", "Usage by model"));
    r.push(("/token today", "Today's usage"));
    r.push(("/token history", "Recent request history"));
    r.push(("/cost", "Alias for /token"));
    r.push(("/health", "Engine status and diagnostics"));
    r.push(("/local status", "Show local model info"));
    r.push(("/local set", "Configure local model"));
    r.push(("/local test", "Test local model connectivity"));
    r.push(("/clear", "Clear all messages"));
    r.push(("/theme dark", "Switch to dark theme"));
    r.push(("/theme light", "Switch to light theme"));
    r.push(("/session new", "Create a new session"));
    r.push(("/session list", "List all sessions"));
    r.push(("/session", "Resume a session by ID"));
    r.push(("/memory persona", "Show persona summary"));
    r.push(("/memory events", "List recent events"));
    r.push(("/memory cognitions", "List cognitions"));
    r.push(("/memory search", "Search events"));
    r.push(("/skills list", "List registered skills"));
    r.push(("/skills invoke", "Invoke a skill by name"));
    r.push(("/mode", "Show/switch agent mode"));
    r.push(("/mode chat", "Chat mode \u{2014} pure conversation"));
    r.push(("/mode plan", "Plan mode \u{2014} read-only exploration"));
    r.push(("/mode code", "Code mode \u{2014} full agent + tools"));
    r.push(("/mode assistant", "Assistant mode \u{2014} general helper"));
    r.push(("/config get", "Get config values"));
    r.push(("/config set", "Set config values"));
    assert(pair_views(r@) =~= slash_commands_spec());
    r
}

/// Whether the first word of `text` is a palette command, or the start of one that takes an argument.
pub open spec fn is_known_command_spec(text: Seq<char>) -> bool {
    let cmd = split_once_spec(text, ' ').0;
    exists|i: int|
        0 <= i < slash_commands_spec().len() && {
            let c = (#[trigger] slash_commands_spec()[i]).0;
            c == cmd || has_prefix(c, cmd + " "@)
        }
}

pub fn is_known_command(text: &str) -> (b: bool)
    ensures
        b == is_known_command_spec(text@),
{
    let v = chars_of(text);
    let (cmd, _) = split_once(&v, ' ');
    let mut with_space = cmd.clone();
    with_space.push(' ');
    proof { reveal_strlit(" "); }
    assert(with_space@ =~= cmd@ + " "@);
    let cmds = slash_commands();
    let mut i: usize = 0;
    while i < cmds.len()
        invariant
            i <= cmds@.len(),
            pair_views(cmds@) == slash_commands_spec(),
            cmd@ == split_once_spec(text@, ' ').0,
            with_space@ == cmd@ + " "@,
            forall|j: int|
                0 <= j < i ==> {
                    let c = (#[trigger] slash_commands_spec()[j]).0;
                    !(c == cmd@ || has_prefix(c, cmd@ + " "@))
                },
        decreases cmds@.len() - i,
    {
        let c = chars_of(cmds[i].0);
        assert(c@ == slash_commands_spec()[i as int].0);
        if chars_eq_vec(&c, &cmd) || matches_at(&c, &with_space, 0) {
            return true;
        }
        i = i + 1;
    }
    false
}

/// Whether two character vectors are equal.
pub fn chars_eq_vec(a: &Vec<char>, b: &Vec<char>) -> (r: bool)
    ensures
        r == (a@ == b@),
{
    if a.len() != b.len() {
        return false;
    }
    let mut i: usize = 0;
    while i < a.len()
        invariant
            a.len() == b.len(),
            i <= a.len(),
            forall|j: int| 0 <= j < i ==> a@[j] == b@[j],
        decreases a.len() - i,
    {
        if a[i] != b[i] {
            assert(a@[i as int] != b@[i as int]);
            return false;
        }
        i = i + 1;
    }
    assert(a@ =~= b@);
    true
}

} // verus!

verus! {

/// `s` without its first character (empty stays empty).
pub open spec fn tail(s: Seq<char>) -> Seq<char> {
    if s.len() > 0 { s.skip(1) } else { Seq::empty() }
}

pub fn tail_chars(v: &Vec<char>) -> (r: Vec<char>)
    ensures
        r@ == tail(v@),
{
    if v.len() == 0 {
        let r: Vec<char> = Vec::new();
        assert(r@ =~= tail(v@));
        r
    } else {
        let r = slice_chars(v, 1, v.len());
        assert(r@ =~= v@.skip(1));
        r
    }
}

/// Whether a palette command (without its `/`) is offered for the lowercased typed text.
pub open spec fn offered(full: Seq<char>, typed_lower: Seq<char>) -> bool {
    has_prefix(full, typed_lower) || typed_lower.len() == 0
}

/// Whether the typed text names one of the commands exactly (ignoring ASCII case).
pub open spec fn names_exactly(cmds: Seq<Seq<char>>, typed_lower: Seq<char>) -> bool {
    exists|i: int| 0 <= i < cmds.len() && eq_ignore_ascii_case_spec(tail(#[trigger] cmds[i]), trim_spec(typed_lower))
}

pub open spec fn command_names(cmds: Seq<(Seq<char>, Seq<char>)>) -> Seq<Seq<char>> {
    cmds.map_values(|e: (Seq<char>, Seq<char>)| e.0)
}

/// The palette entries for what is typed: nothing unless it starts with one `/`; nothing once
/// it names a command exactly; otherwise the commands that start with the typed text.
pub open spec fn palette_spec(input: Seq<char>) -> Seq<(Seq<char>, Seq<char>)> {
    let typed_lower = lowercase(input.skip(1));
    let cmds = slash_commands_spec();
    if !has_prefix(input, "/"@) || has_prefix(input, "//"@) {
        Seq::empty()
    } else if names_exactly(command_names(cmds), typed_lower) && trim_spec(typed_lower).len() > 0 {
        Seq::empty()
    } else {
        cmds.filter(|e: (Seq<char>, Seq<char>)| offered(tail(e.0), typed_lower))
    }
}

/// Whether some command of `cmds` equals `t` once its first character is dropped, ignoring ASCII case.
fn any_exact(cmds: &Vec<Vec<char>>, t: &Vec<char>) -> (b: bool)
    ensures
        b == exists|i: int| 0 <= i < cmds@.len() && eq_ignore_ascii_case_spec(tail((#[trigger] cmds@[i])@), t@),
{
    let mut i: usize = 0;
    while i < cmds.len()
        invariant
            i <= cmds@.len(),
            forall|j: int| 0 <= j < i ==> !eq_ignore_ascii_case_spec(tail((#[trigger] cmds@[j])@), t@),
        decreases cmds@.len() - i,
    {
        let rest = tail_chars(&cmds[i]);
        if eq_ignore_ascii_case(&rest, t) {
            return true;
        }
        i = i + 1;
    }
    false
}

pub(crate) proof fn lemma_filter_step<A>(s: Seq<A>, i: int, f: spec_fn(A) -> bool)
    requires
        0 <= i < s.len(),
    ensures
        s.take(i + 1).filter(f) == if f(s[i]) { s.take(i).filter(f).push(s[i]) } else { s.take(i).filter(f) },
{
    reveal_with_fuel(Seq::filter, 1);
    assert(s.take(i + 1).drop_last() =~= s.take(i));
}

/// The lowercased text typed after the `/`, and its trimmed form.
fn typed_after_slash(v: &Vec<char>) -> (r: (Vec<char>, Vec<char>))
    requires
        v@.len() >= 1,
    ensures
        r.0@ == lowercase(v@.skip(1)),
        r.1@ == trim_spec(lowercase(v@.skip(1))),
{
    let typed = slice_chars(v, 1, v.len());
    assert(typed@ =~= v@.skip(1));
    let typed_text = string_of(&typed);
    let lower = to_lowercase(typed_text.as_str());
    let tl = chars_of(lower.as_str());
    let tl_trim = trim_chars(&tl);
    (tl, tl_trim)
}

fn names_of_static(cmds: &Vec<(&'static str, &'static str)>) -> (names: Vec<Vec<char>>)
    ensures
        names@.len() == cmds@.len(),
        forall|j: int| 0 <= j < cmds@.len() ==> (#[trigger] names@[j])@ == cmds@[j].0@,
{
    let mut names: Vec<Vec<char>> = Vec::new();
    let mut i: usize = 0;
    while i < cmds.len()
        invariant
            i <= cmds@.len(),
            names@.len() == i,
            forall|j: int| 0 <= j < i ==> (#[trigger] names@[j])@ == cmds@[j].0@,
        decreases cmds@.len() - i,
    {
        names.push(chars_of(cmds[i].0));
        i = i + 1;
    }
    names
}

pub fn palette_matches(input: &str) -> (r: Vec<(&'static str, &'static str)>)
    ensures
        pair_views(r@) == palette_spec(input@),
{
    let v = chars_of(input);
    if !starts_with(&v, "/") || starts_with(&v, "//") {
        let r: Vec<(&'static str, &'static str)> = Vec::new();
        assert(pair_views(r@) =~= Seq::<(Seq<char>, Seq<char>)>::empty());
        return r;
    }
    proof { reveal_strlit("/"); }
    let (tl, tl_trim) = typed_after_slash(&v);
    let cmds = slash_commands();
    let names = names_of_static(&cmds);
    let ghost spec_cmds = slash_commands_spec();
    assert(names@.map_values(|n: Vec<char>| n@) =~= command_names(spec_cmds));
    let exact = any_exact(&names, &tl_trim);
    assert(exact == names_exactly(command_names(spec_cmds), tl@)) by {
        if exact {
            let i = choose|i: int| 0 <= i < names@.len() && eq_ignore_ascii_case_spec(tail((#[trigger] names@[i])@), tl_trim@);
            assert(command_names(spec_cmds)[i] == names@[i]@);
        }
        if names_exactly(command_names(spec_cmds), tl@) {
            let i = choose|i: int| 0 <= i < command_names(spec_cmds).len() && eq_ignore_ascii_case_spec(tail(#[trigger] command_names(spec_cmds)[i]), trim_spec(tl@));
            assert(command_names(spec_cmds)[i] == names@[i]@);
        }
    }
    if exact && tl_trim.len() > 0 {
        let r: Vec<(&'static str, &'static str)> = Vec::new();
        assert(pair_views(r@) =~= Seq::<(Seq<char>, Seq<char>)>::empty());
        return r;
    }
    let ghost f = |e: (Seq<char>, Seq<char>)| offered(tail(e.0), tl@);
    let mut out: Vec<(&'static str, &'static str)> = Vec::new();
    let mut i: usize = 0;
    while i < cmds.len()
        invariant
            i <= cmds@.len(),
            pair_views(cmds@) == spec_cmds,
            names@.len() == cmds@.len(),
            forall|j: int| 0 <= j < cmds@.len() ==> (#[trigger] names@[j])@ == cmds@[j].0@,
            f == (|e: (Seq<char>, Seq<char>)| offered(tail(e.0), tl@)),
            pair_views(out@) == spec_cmds.take(i as int).filter(f),
        decreases cmds@.len() - i,
    {
        proof { lemma_filter_step(spec_cmds, i as int, f); }
        let rest = tail_chars(&names[i]);
        if matches_at(&rest, &tl, 0) || tl.len() == 0 {
            out.push(cmds[i]);
            assert(pair_views(out@) =~= pair_views(out@.drop_last()).push(spec_cmds[i as int]));
        }
        i = i + 1;
    }
    assert(spec_cmds.take(cmds@.len() as int) =~= spec_cmds);
    out
}

/// As `palette_spec`, followed by the extra commands (plugin skills, say) that start with the
/// typed text, compared in lowercase.
pub open spec fn palette_dynamic_spec(input: Seq<char>, extra: Seq<(Seq<char>, Seq<char>)>) -> Seq<(Seq<char>, Seq<char>)> {
    let typed_lower = lowercase(input.skip(1));
    let cmds = slash_commands_spec();
    if !has_prefix(input, "/"@) || has_prefix(input, "//"@) {
        Seq::empty()
    } else if (names_exactly(command_names(cmds), typed_lower) || names_exactly(command_names(extra), typed_lower))
        && trim_spec(typed_lower).len() > 0 {
        Seq::empty()
    } else {
        cmds.filter(|e: (Seq<char>, Seq<char>)| offered(tail(e.0), typed_lower)) + extra.filter(
            |e: (Seq<char>, Seq<char>)| offered(lowercase(tail(e.0)), typed_lower),
        )
    }
}

/// With no extra commands, the palette with extra commands offers exactly what the plain
/// palette offers.
pub proof fn law_dynamic_palette_without_extras(input: Seq<char>)
    ensures
        palette_dynamic_spec(input, Seq::empty()) == palette_spec(input),
{
    let e = Seq::<(Seq<char>, Seq<char>)>::empty();
    let typed_lower = lowercase(input.skip(1));
    assert(!names_exactly(command_names(e), typed_lower));
    let f = |x: (Seq<char>, Seq<char>)| offered(lowercase(tail(x.0)), typed_lower);
    assert(e.filter(f).len() == 0) by {
        e.lemma_filter_len(f);
    }
    let cmds = slash_commands_spec();
    let g = |x: (Seq<char>, Seq<char>)| offered(tail(x.0), typed_lower);
    assert(cmds.filter(g) + e.filter(f) =~= cmds.filter(g));
}

proof fn lemma_filter_keeps_all<A>(s: Seq<A>, f: spec_fn(A) -> bool)
    requires
        forall|i: int| 0 <= i < s.len() ==> f(#[trigger] s[i]),
    ensures
        s.filter(f) == s,
    decreases s.len(),
{
    reveal_with_fuel(Seq::filter, 1);
    if s.len() > 0 {
        let d = s.drop_last();
        assert forall|i: int| 0 <= i < d.len() implies f(#[trigger] d[i]) by {
            assert(d[i] == s[i]);
        }
        lemma_filter_keeps_all(d, f);
        assert(f(s[s.len() - 1]));
        assert(d.push(s.last()) =~= s);
    }
}

proof fn lemma_empty_trims_to_empty(t: Seq<char>)
    requires
        t.len() == 0,
    ensures
        trim_spec(t).len() == 0,
{
    assert(t =~= Seq::<char>::empty());
    crate::text::lemma_lead_ws_bound(t);
}

/// With a single leading `/` and no command named exactly, the palette is the commands whose
/// name after the `/` starts with what is typed after it (lowercased), in table order.
pub proof fn law_palette_prefix_matches(input: Seq<char>)
    requires
        has_prefix(input, "/"@),
        !has_prefix(input, "//"@),
        !(names_exactly(command_names(slash_commands_spec()), lowercase(input.skip(1)))
            && trim_spec(lowercase(input.skip(1))).len() > 0),
    ensures
        palette_spec(input) == slash_commands_spec().filter(
            |e: (Seq<char>, Seq<char>)| has_prefix(tail(e.0), lowercase(input.skip(1))),
        ),
{
    let tl = lowercase(input.skip(1));
    let f = |e: (Seq<char>, Seq<char>)| offered(tail(e.0), tl);
    let g = |e: (Seq<char>, Seq<char>)| has_prefix(tail(e.0), lowercase(input.skip(1)));
    assert forall|e: (Seq<char>, Seq<char>)| #[trigger] f(e) == g(e) by {
        if tl.len() == 0 {
            assert(tail(e.0).take(0) =~= tl);
        }
    }
    assert(f =~= g);
}

/// Once what is typed after the `/` names a command exactly (ignoring case and surrounding
/// spaces), the palette offers nothing, with or without extra commands.
pub proof fn law_palette_closes_on_exact_name(input: Seq<char>, extra: Seq<(Seq<char>, Seq<char>)>)
    requires
        has_prefix(input, "/"@),
        !has_prefix(input, "//"@),
        names_exactly(command_names(slash_commands_spec()), lowercase(input.skip(1))),
        trim_spec(lowercase(input.skip(1))).len() > 0,
    ensures
        palette_spec(input).len() == 0,
        palette_dynamic_spec(input, extra).len() == 0,
{
}

/// When nothing but spaces of no kind follows the `/` (what is typed lowercases to nothing),
/// the palette lists every command, in table order; with extra commands, every command and
/// then every extra one.
pub proof fn law_palette_empty_typed_lists_all(input: Seq<char>, extra: Seq<(Seq<char>, Seq<char>)>)
    requires
        has_prefix(input, "/"@),
        !has_prefix(input, "//"@),
        lowercase(input.skip(1)).len() == 0,
    ensures
        palette_spec(input) == slash_commands_spec(),
        palette_dynamic_spec(input, extra) == slash_commands_spec() + extra,
{
    let tl = lowercase(input.skip(1));
    lemma_empty_trims_to_empty(tl);
    let cmds = slash_commands_spec();
    let f = |e: (Seq<char>, Seq<char>)| offered(tail(e.0), tl);
    let h = |e: (Seq<char>, Seq<char>)| offered(lowercase(tail(e.0)), tl);
    assert forall|i: int| 0 <= i < cmds.len() implies f(#[trigger] cmds[i]) by {
        assert(tail(cmds[i].0).take(0) =~= tl);
    }
    assert forall|i: int| 0 <= i < extra.len() implies h(#[trigger] extra[i]) by {
        assert(lowercase(tail(extra[i].0)).take(0) =~= tl);
    }
    lemma_filter_keeps_all(cmds, f);
    lemma_filter_keeps_all(extra, h);
}

pub open spec fn string_pair_views(v: Seq<(String, String)>) -> Seq<(Seq<char>, Seq<char>)> {
    v.map_values(|e: (String, String)| (e.0@, e.1@))
}

/// Like `palette_matches` but also includes dynamic external commands (e.g. plugin skills).
/// Each external command starts with a one-byte character (its `/`).
pub fn palette_matches_dynamic(input: &str, external_commands: &Vec<(String, String)>) -> (r: Vec<(String, String)>)
    requires
        forall|i: int|
            0 <= i < external_commands@.len() ==> (#[trigger] external_commands@[i]).0@.len() > 0
                && external_commands@[i].0@[0] < '\u{80}',
    ensures
        string_pair_views(r@) == palette_dynamic_spec(input@, string_pair_views(external_commands@)),
{
    let v = chars_of(input);
    if !starts_with(&v, "/") || starts_with(&v, "//") {
        let r: Vec<(String, String)> = Vec::new();
        assert(string_pair_views(r@) =~= Seq::<(Seq<char>, Seq<char>)>::empty());
        return r;
    }
    proof { reveal_strlit("/"); }
    let (tl, tl_trim) = typed_after_slash(&v);
    let cmds = slash_commands();
    let names = names_of_static(&cmds);
    let ghost spec_cmds = slash_commands_spec();
    let ghost extra = string_pair_views(external_commands@);
    let mut ext_names: Vec<Vec<char>> = Vec::new();
    let mut k: usize = 0;
    while k < external_commands.len()
        invariant
            k <= external_commands@.len(),
            ext_names@.len() == k,
            forall|j: int| 0 <= j < k ==> (#[trigger] ext_names@[j])@ == external_commands@[j].0@,
        decreases external_commands@.len() - k,
    {
        ext_names.push(chars_of(external_commands[k].0.as_str()));
        k = k + 1;
    }
    assert(names@.map_values(|n: Vec<char>| n@) =~= command_names(spec_cmds));
    let exact_builtin = any_exact(&names, &tl_trim);
    let exact_external = any_exact(&ext_names, &tl_trim);
    assert(exact_builtin == names_exactly(command_names(spec_cmds), tl@)) by {
        if exact_builtin {
            let i = choose|i: int| 0 <= i < names@.len() && eq_ignore_ascii_case_spec(tail((#[trigger] names@[i])@), tl_trim@);
            assert(command_names(spec_cmds)[i] == names@[i]@);
        }
        if names_exactly(command_names(spec_cmds), tl@) {
            let i = choose|i: int| 0 <= i < command_names(spec_cmds).len() && eq_ignore_ascii_case_spec(tail(#[trigger] command_names(spec_cmds)[i]), trim_spec(tl@));
            assert(command_names(spec_cmds)[i] == names@[i]@);
        }
    }
    assert(exact_external == names_exactly(command_names(extra), tl@)) by {
        if exact_external {
            let i = choose|i: int| 0 <= i < ext_names@.len() && eq_ignore_ascii_case_spec(tail((#[trigger] ext_names@[i])@), tl_trim@);
            assert(command_names(extra)[i] == ext_names@[i]@);
        }
        if names_exactly(command_names(extra), tl@) {
            let i = choose|i: int| 0 <= i < command_names(extra).len() && eq_ignore_ascii_case_spec(tail(#[trigger] command_names(extra)[i]), trim_spec(tl@));
            assert(command_names(extra)[i] == ext_names@[i]@);
        }
    }
    if (exact_builtin || exact_external) && tl_trim.len() > 0 {
        let r: Vec<(String, String)> = Vec::new();
        assert(string_pair_views(r@) =~= Seq::<(Seq<char>, Seq<char>)>::empty());
        return r;
    }
    let ghost f = |e: (Seq<char>, Seq<char>)| offered(tail(e.0), tl@);
    let mut out: Vec<(String, String)> = Vec::new();
    let mut i: usize = 0;
    while i < cmds.len()
        invariant
            i <= cmds@.len(),
            pair_views(cmds@) == spec_cmds,
            names@.len() == cmds@.len(),
            forall|j: int| 0 <= j < cmds@.len() ==> (#[trigger] names@[j])@ == cmds@[j].0@,
            f == (|e: (Seq<char>, Seq<char>)| offered(tail(e.0), tl@)),
            string_pair_views(out@) == spec_cmds.take(i as int).filter(f),
        decreases cmds@.len() - i,
    {
        proof { lemma_filter_step(spec_cmds, i as int, f); }
        let rest = tail_chars(&names[i]);
        if matches_at(&rest, &tl, 0) || tl.len() == 0 {
            out.push((String::from_str(cmds[i].0), String::from_str(cmds[i].1)));
            assert(string_pair_views(out@) =~= string_pair_views(out@.drop_last()).push(spec_cmds[i as int]));
        }
        i = i + 1;
    }
    assert(spec_cmds.take(cmds@.len() as int) =~= spec_cmds);
    let ghost base = out@;
    let ghost g = |e: (Seq<char>, Seq<char>)| offered(lowercase(tail(e.0)), tl@);
    let mut j: usize = 0;
    while j < external_commands.len()
        invariant
            j <= external_commands@.len(),
            extra == string_pair_views(external_commands@),
            ext_names@.len() == external_commands@.len(),
            forall|t: int| 0 <= t < external_commands@.len() ==> (#[trigger] ext_names@[t])@ == external_commands@[t].0@,
            g == (|e: (Seq<char>, Seq<char>)| offered(lowercase(tail(e.0)), tl@)),
            string_pair_views(out@) == string_pair_views(base) + extra.take(j as int).filter(g),
        decreases external_commands@.len() - j,
    {
        proof { lemma_filter_step(extra, j as int, g); }
        let rest = tail_chars(&ext_names[j]);
        let rest_text = string_of(&rest);
        let low = to_lowercase(rest_text.as_str());
        let lowv = chars_of(low.as_str());
        assert(extra[j as int].0 == ext_names@[j as int]@);
        assert(lowv@ == lowercase(tail(extra[j as int].0)));
        if matches_at(&lowv, &tl, 0) || tl.len() == 0 {
            assert(g(extra[j as int]));
            let e = &external_commands[j];
            let ghost before = out@;
            out.push((e.0.clone(), e.1.clone()));
            assert(out@.drop_last() == before);
            assert(string_pair_views(out@) =~= string_pair_views(before).push(extra[j as int]));
            assert(extra.take(j + 1).filter(g) == extra.take(j as int).filter(g).push(extra[j as int]));
            assert(string_pair_views(out@) =~= string_pair_views(base) + extra.take(j + 1).filter(g));
        } else {
            assert(string_pair_views(out@) =~= string_pair_views(base) + extra.take(j + 1).filter(g));
        }
        j = j + 1;
    }
    assert(extra.take(external_commands@.len() as int) =~= extra);
    out
}

} // verus!
