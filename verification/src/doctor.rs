//! The text of the toolchain check: the environment lines suggested for a Cargo config, and the
//! tag that marks a vision projection among the model files.

use vstd::prelude::*;

use crate::text::{append_str, chars_of, has_prefix, replace_all, replace_from, starts_with};

verus! {

/// A path as written inside a TOML string: every backslash doubled.
pub open spec fn toml_escaped(p: Seq<char>) -> Seq<char> {
    replace_from(p, seq!['\\'], seq!['\\', '\\'], 0)
}

pub fn escape_backslashes(p: &str) -> (r: String)
    ensures
        r@ == toml_escaped(p@),
{
    proof {
        reveal_strlit("\\");
        reveal_strlit("\\\\");
        assert("\\"@ =~= seq!['\\']);
        assert("\\\\"@ =~= seq!['\\', '\\']);
    }
    replace_all(p, "\\", "\\\\")
}

/// The escaped paths joined by `;`.
pub open spec fn joined_paths(paths: Seq<Seq<char>>) -> Seq<char>
    decreases paths.len(),
{
    if paths.len() == 0 {
        Seq::empty()
    } else if paths.len() == 1 {
        toml_escaped(paths[0])
    } else {
        joined_paths(paths.drop_last()) + ";"@ + toml_escaped(paths.last())
    }
}

pub open spec fn paths_view(v: Seq<String>) -> Seq<Seq<char>> {
    Seq::new(v.len(), |i: int| v[i]@)
}

/// `NAME = "p1;p2;..."`, the line of a Cargo `[env]` table that sets a list of paths.
pub fn env_line(name: &str, paths: &Vec<String>) -> (r: String)
    ensures
        r@ == name@ + " = \""@ + joined_paths(paths_view(paths@)) + "\""@,
{
    let ghost pv = paths_view(paths@);
    let mut joined = String::new();
    let mut i: usize = 0;
    while i < paths.len()
        invariant
            i <= paths@.len(),
            pv == paths_view(paths@),
            joined@ == joined_paths(pv.take(i as int)),
        decreases paths@.len() - i,
    {
        assert(pv.take(i + 1).drop_last() =~= pv.take(i as int));
        assert(pv.take(i + 1).last() == pv[i as int]);
        if i > 0 {
            append_str(&mut joined, ";");
        }
        append_str(&mut joined, escape_backslashes(paths[i].as_str()).as_str());
        proof {
            if i == 0 {
                assert(pv.take(1)[0] == pv[0]);
                assert(joined@ =~= toml_escaped(pv[0]));
            }
        }
        i = i + 1;
    }
    assert(pv.take(paths@.len() as int) =~= pv);
    let mut r = String::from_str(name);
    append_str(&mut r, " = \"");
    append_str(&mut r, joined.as_str());
    append_str(&mut r, "\"");
    r
}

/// The tag shown after a model file's name: vision projections (`mmproj-`) are marked.
pub fn model_file_tag(name: &str) -> (r: &'static str)
    ensures
        r@ == if has_prefix(name@, "mmproj-"@) {
            " [vision proj]"@
        } else {
            ""@
        },
{
    let v = chars_of(name);
    if starts_with(&v, "mmproj-") {
        " [vision proj]"
    } else {
        ""
    }
}

} // verus!
