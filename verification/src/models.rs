//! Local model files and model settings: which files in the models folder are usable, in
//! what order they are tried, the context size a model's name hints at, and the active model.

use vstd::prelude::*;

use crate::json::{json_get_nested_str, json_nested_str_field};
use crate::text::{
    chars_of, eq_ignore_ascii_case, eq_ignore_ascii_case_spec, has_prefix, has_suffix, find_char, find_char_spec,
    lemma_find_from_bounds, lowercase, parse_usize, parse_usize_spec, slice_chars, str_eq, string_of,
    text_starts_with, to_lowercase, rfind_from, occurs_at,
};

verus! {

/// Files smaller than this (100 MiB) are not taken for models.
pub const MIN_MODEL_BYTES: u64 = 104857600;

/// The position of the last `.` of a file name.
pub open spec fn last_dot_from(s: Seq<char>, k: int) -> Option<int>
    decreases k + 1,
{
    if k < 0 || k >= s.len() {
        None
    } else if s[k] == '.' {
        Some(k)
    } else {
        last_dot_from(s, k - 1)
    }
}

/// The extension of a file name, as `Path::extension` finds it: what follows the last `.`,
/// when that dot is not the name's first character.
pub open spec fn extension_spec(name: Seq<char>) -> Option<Seq<char>> {
    match last_dot_from(name, name.len() - 1) {
        Some(k) => if k > 0 {
            Some(name.skip(k + 1))
        } else {
            None
        },
        None => None,
    }
}

proof fn lemma_last_dot_from(s: Seq<char>, k: int)
    requires
        k < s.len(),
    ensures
        last_dot_from(s, k) matches Some(i) ==> 0 <= i <= k,
    decreases k + 1,
{
    if k >= 0 && s[k] != '.' {
        lemma_last_dot_from(s, k - 1);
    }
}

/// Whether a file of the models folder is a usable model: a `.gguf` file that is not a vision
/// projection (`mmproj-`) and has at least 100 MiB.
pub open spec fn is_model_file_spec(name: Seq<char>, size: u64) -> bool {
    extension_spec(name) == Some("gguf"@) && !has_prefix(name, "mmproj-"@) && size >= MIN_MODEL_BYTES
}

pub fn is_model_file(name: &str, size: u64) -> (b: bool)
    ensures
        b == is_model_file_spec(name@, size),
{
    let v = chars_of(name);
    let mut k: usize = v.len();
    while k > 0 && v[k - 1] != '.'
        invariant
            k <= v.len(),
            last_dot_from(v@, v@.len() - 1) == last_dot_from(v@, k - 1),
        decreases k,
    {
        k = k - 1;
    }
    proof { lemma_last_dot_from(v@, v@.len() - 1); }
    let gguf = if k >= 2 {
        let ext = slice_chars(&v, k, v.len());
        assert(ext@ =~= v@.skip(k as int));
        str_eq(string_of(&ext).as_str(), "gguf")
    } else {
        false
    };
    assert(gguf == (extension_spec(v@) == Some("gguf"@)));
    gguf && !text_starts_with(name, "mmproj-") && size >= MIN_MODEL_BYTES
}

/// `v` with `x` put after every element no larger: a stable insertion by size.
pub open spec fn insert_by_size(v: Seq<(Seq<char>, u64)>, x: (Seq<char>, u64)) -> Seq<(Seq<char>, u64)>
    decreases v.len(),
{
    if v.len() == 0 {
        seq![x]
    } else if v.last().1 <= x.1 {
        v.push(x)
    } else {
        insert_by_size(v.drop_last(), x).push(v.last())
    }
}

/// The files ordered by size, smallest first; files of equal size keep their order.
pub open spec fn sort_by_size_spec(v: Seq<(Seq<char>, u64)>) -> Seq<(Seq<char>, u64)>
    decreases v.len(),
{
    if v.len() == 0 {
        v
    } else {
        insert_by_size(sort_by_size_spec(v.drop_last()), v.last())
    }
}

pub open spec fn files_view(v: Seq<(String, u64)>) -> Seq<(Seq<char>, u64)> {
    Seq::new(v.len(), |i: int| (v[i].0@, v[i].1))
}

/// Puts `x` into the sorted `v` after every element no larger.
fn insert_sorted(v: &mut Vec<(String, u64)>, x: (String, u64))
    ensures
        files_view(final(v)@) == insert_by_size(files_view(old(v)@), (x.0@, x.1)),
{
    let ghost xv = (x.0@, x.1);
    let mut k: usize = v.len();
    assert(files_view(v@).take(k as int) =~= files_view(v@));
    assert(files_view(v@).skip(k as int) =~= Seq::<(Seq<char>, u64)>::empty());
    assert(files_view(v@) + Seq::<(Seq<char>, u64)>::empty() =~= files_view(v@));
    assert(insert_by_size(files_view(v@), xv) + Seq::<(Seq<char>, u64)>::empty() =~= insert_by_size(files_view(v@), xv));
    while k > 0 && v[k - 1].1 > x.1
        invariant
            k <= v@.len(),
            *v == *old(v),
            xv == (x.0@, x.1),
            insert_by_size(files_view(v@), xv) == insert_by_size(files_view(v@).take(k as int), xv) + files_view(v@).skip(
                k as int,
            ),
        decreases k,
    {
        let ghost fv = files_view(v@);
        assert(fv.take(k as int).drop_last() =~= fv.take(k - 1));
        assert(fv.take(k as int).last() == fv[k - 1]);
        assert(fv.skip(k - 1) =~= seq![fv[k - 1]] + fv.skip(k as int));
        assert(fv[k - 1].1 > xv.1);
        assert(insert_by_size(fv.take(k as int), xv) == insert_by_size(fv.take(k - 1), xv).push(fv[k - 1]));
        assert(insert_by_size(fv.take(k - 1), xv).push(fv[k - 1]) + fv.skip(k as int) =~= insert_by_size(fv.take(k - 1), xv)
            + fv.skip(k - 1));
        k = k - 1;
    }
    let ghost fv = files_view(v@);
    proof {
        if k > 0 {
            assert(fv.take(k as int).last() == fv[k - 1]);
            assert(insert_by_size(fv.take(k as int), xv) == fv.take(k as int).push(xv));
        } else {
            assert(fv.take(0) =~= Seq::<(Seq<char>, u64)>::empty());
        }
    }
    v.insert(k, x);
    assert(files_view(v@) =~= fv.take(k as int).push(xv) + fv.skip(k as int));
}

/// The usable model files of a folder (name, size in bytes), smallest first, files of equal
/// size in the order given.
pub fn order_models(files: Vec<(String, u64)>) -> (r: Vec<(String, u64)>)
    ensures
        files_view(r@) == sort_by_size_spec(files_view(files@)),
{
    let ghost orig = files_view(files@);
    let mut rest = files;
    let n0 = rest.len();
    let mut out: Vec<(String, u64)> = Vec::new();
    let mut i: usize = 0;
    assert(orig.take(0) =~= Seq::<(Seq<char>, u64)>::empty());
    while rest.len() > 0
        invariant
            i + rest@.len() == orig.len(),
            orig.len() == n0,
            files_view(rest@) == orig.skip(i as int),
            files_view(out@) == sort_by_size_spec(orig.take(i as int)),
        decreases rest@.len(),
    {
        let x = rest.remove(0);
        assert(files_view(rest@) =~= orig.skip(i + 1)) by {
            assert(orig.skip(i as int).drop_first() =~= orig.skip(i + 1));
        }
        assert((x.0@, x.1) == orig[i as int]) by {
            assert(orig.skip(i as int)[0] == orig[i as int]);
        }
        assert(orig.take(i + 1).drop_last() =~= orig.take(i as int));
        assert(orig.take(i + 1).last() == orig[i as int]);
        insert_sorted(&mut out, x);
        i = i + 1;
    }
    assert(orig.take(orig.len() as int) =~= orig);
    out
}

/// A stable insertion keeps the order sorted.
pub proof fn law_models_sorted(v: Seq<(Seq<char>, u64)>)
    ensures
        forall|a: int, b: int| 0 <= a < b < sort_by_size_spec(v).len() ==> (#[trigger] sort_by_size_spec(v)[a]).1
            <= (#[trigger] sort_by_size_spec(v)[b]).1,
        sort_by_size_spec(v).len() == v.len(),
    decreases v.len(),
{
    if v.len() > 0 {
        law_models_sorted(v.drop_last());
        lemma_insert_sorted(sort_by_size_spec(v.drop_last()), v.last());
    }
}

proof fn lemma_insert_sorted(v: Seq<(Seq<char>, u64)>, x: (Seq<char>, u64))
    requires
        forall|a: int, b: int| 0 <= a < b < v.len() ==> (#[trigger] v[a]).1 <= (#[trigger] v[b]).1,
    ensures
        forall|a: int, b: int| 0 <= a < b < insert_by_size(v, x).len() ==> (#[trigger] insert_by_size(v, x)[a]).1
            <= (#[trigger] insert_by_size(v, x)[b]).1,
        insert_by_size(v, x).len() == v.len() + 1,
        forall|a: int| 0 <= a < insert_by_size(v, x).len() ==> (#[trigger] insert_by_size(v, x)[a]).1 <= (if v.len() > 0
            && v.last().1 > x.1 {
            v.last().1
        } else {
            x.1
        }),
    decreases v.len(),
{
    if v.len() > 0 && v.last().1 > x.1 {
        let d = v.drop_last();
        assert forall|a: int, b: int| 0 <= a < b < d.len() implies (#[trigger] d[a]).1 <= (#[trigger] d[b]).1 by {
            assert(d[a] == v[a] && d[b] == v[b]);
        }
        lemma_insert_sorted(d, x);
        let r = insert_by_size(d, x);
        assert forall|a: int| 0 <= a < r.len() implies (#[trigger] r[a]).1 <= v.last().1 by {
            if d.len() > 0 && d.last().1 > x.1 {
                assert(d.last() == v[v.len() - 2]);
            }
        }
    }
}

// ── the context size hint ──

/// What a model name says of its context size between square brackets: a number of
/// millions (`[1m]`), of thousands (`[128k]`), a plain count (`[32768]`), as written.
pub enum ContextHint {
    /// The text before the `m`, to be read as a number and multiplied by a million.
    Millions(String),
    /// The text before the `k`, to be read as a number and multiplied by a thousand.
    Thousands(String),
    /// A count written out, or none when it is not one.
    Count(Option<usize>),
}

/// The hint between the first `[` and the first `]` of a name, when both are there and the
/// `]` comes at least two places after the `[`.
pub open spec fn hint_text(name: Seq<char>) -> Option<Seq<char>> {
    match (find_char_spec(name, '['), find_char_spec(name, ']')) {
        (Some(s), Some(e)) => if e <= s + 1 {
            None
        } else {
            Some(name.subrange(s + 1, e))
        },
        _ => None,
    }
}

pub open spec fn context_hint_spec(name: Seq<char>, h: ContextHint) -> bool {
    match hint_text(name) {
        None => false,
        Some(t) => {
            let l = lowercase(t);
            if l.len() > 0 && l.last() == 'm' {
                h matches ContextHint::Millions(n) && n@ == l.drop_last()
            } else if l.len() > 0 && l.last() == 'k' {
                h matches ContextHint::Thousands(n) && n@ == l.drop_last()
            } else {
                h matches ContextHint::Count(c) && c == (match parse_usize_spec(t) {
                    Some(n) => if n <= usize::MAX { Some(n as usize) } else { None },
                    None => None,
                })
            }
        },
    }
}

/// The context size hint of a model name, or none when it has no bracketed hint.
pub fn context_hint(name: &str) -> (r: Option<ContextHint>)
    ensures
        r is None <==> hint_text(name@) is None,
        r matches Some(h) ==> context_hint_spec(name@, h),
{
    let v = chars_of(name);
    let s = match find_char(&v, '[') {
        Some(s) => s,
        None => return None,
    };
    let e = match find_char(&v, ']') {
        Some(e) => e,
        None => return None,
    };
    proof {
        lemma_find_from_bounds(v@, seq!['['], 0);
        lemma_find_from_bounds(v@, seq![']'], 0);
    }
    let vl = v.len();
    assert(s < vl);
    if e <= s + 1 {
        return None;
    }
    let hint = string_of(&slice_chars(&v, s + 1, e));
    let lower = to_lowercase(hint.as_str());
    let lv = chars_of(lower.as_str());
    if lv.len() > 0 && lv[lv.len() - 1] == 'm' {
        let n = string_of(&slice_chars(&lv, 0, lv.len() - 1));
        assert(n@ =~= lv@.drop_last());
        return Some(ContextHint::Millions(n));
    }
    if lv.len() > 0 && lv[lv.len() - 1] == 'k' {
        let n = string_of(&slice_chars(&lv, 0, lv.len() - 1));
        assert(n@ =~= lv@.drop_last());
        return Some(ContextHint::Thousands(n));
    }
    Some(ContextHint::Count(parse_usize(hint.as_str())))
}

// ── the active model ──

/// A configured model: its model id (if any) and the name of its backend.
pub struct ModelRef {
    pub model: Option<String>,
    pub backend: String,
}

/// The model the settings name as active (`active_model.id` and `active_model.provider`):
/// the first whose id matches and whose backend name matches the provider in any ASCII letter
/// case; a missing provider matches only an empty backend name.
pub open spec fn active_model_matches(m: ModelRef, id: Seq<char>, provider: Seq<char>) -> bool {
    (match m.model {
        Some(x) => x@,
        None => Seq::empty(),
    }) == id && eq_ignore_ascii_case_spec(m.backend@, provider)
}

pub fn resolve_active_model(models: &Vec<ModelRef>, settings: &str) -> (r: Option<usize>)
    ensures
        match json_nested_str_field(settings@, "active_model"@, "id"@) {
            None => r is None,
            Some(id) => {
                let provider = match json_nested_str_field(settings@, "active_model"@, "provider"@) {
                    Some(p) => p,
                    None => Seq::empty(),
                };
                &&& r matches Some(i) ==> i < models@.len() && active_model_matches(models@[i as int], id, provider)
                    && forall|j: int| 0 <= j < i ==> !active_model_matches(#[trigger] models@[j], id, provider)
                &&& r is None ==> forall|j: int| 0 <= j < models@.len() ==> !active_model_matches(#[trigger] models@[j], id, provider)
            },
        },
{
    let id = match json_get_nested_str(settings, "active_model", "id") {
        Some(id) => id,
        None => return None,
    };
    let provider = match json_get_nested_str(settings, "active_model", "provider") {
        Some(p) => p,
        None => String::new(),
    };
    let pv = chars_of(provider.as_str());
    let mut i: usize = 0;
    while i < models.len()
        invariant
            i <= models@.len(),
            pv@ == provider@,
            json_nested_str_field(settings@, "active_model"@, "id"@) == Some(id@),
            provider@ == (match json_nested_str_field(settings@, "active_model"@, "provider"@) {
                Some(p) => p,
                None => Seq::<char>::empty(),
            }),
            forall|j: int| 0 <= j < i ==> !active_model_matches(#[trigger] models@[j], id@, provider@),
        decreases models@.len() - i,
    {
        let m = &models[i];
        let mid = match &m.model {
            Some(x) => x.clone(),
            None => String::new(),
        };
        let bv = chars_of(m.backend.as_str());
        if mid == id && eq_ignore_ascii_case(&bv, &pv) {
            assert(active_model_matches(models@[i as int], id@, provider@));
            return Some(i);
        }
        i = i + 1;
    }
    None
}

} // verus!
