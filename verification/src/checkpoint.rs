//! Checkpoints of files before a tool changes them: which files are kept, how checkpoints are
//! named and listed, and which are old enough to go. The caller reads and writes the files.

use vstd::prelude::*;

use crate::models::{extension_spec, last_dot_from};
use crate::text::{append_str, chars_of, decimal, decimal_string, ends_with, has_suffix, lowercase, slice_chars, str_eq,
    string_of, to_lowercase};

verus! {

/// The extensions of files that are not kept (pictures, archives, binaries and the like).
pub open spec fn skipped_extensions() -> Seq<Seq<char>> {
    seq![
        "7z"@, "apk"@, "app"@, "avi"@, "bin"@, "bmp"@, "bz2"@, "dmg"@, "doc"@, "docx"@, "ear"@, "elf"@, "exe"@,
        "gif"@, "gz"@, "ico"@, "iso"@, "jar"@, "jpeg"@, "jpg"@, "m4a"@, "mov"@, "mp3"@, "mp4"@, "mpeg"@, "mpg"@,
        "o"@, "obj"@, "odp"@, "ods"@, "odt"@, "otf"@, "pdf"@, "pkg"@, "png"@, "rar"@, "rpm"@, "so"@, "svg"@, "tar"@,
        "ttf"@, "war"@, "webp"@, "wmv"@, "woff"@, "woff2"@, "xz"@, "zip"@,
    ]
}

/// Whether a file with this extension (in any letter case) is left without checkpoint.
pub fn is_skipped_extension(ext: &str) -> (b: bool)
    ensures
        b == skipped_extensions().contains(lowercase(ext@)),
{
    let list: Vec<&'static str> = vec![
        "7z", "apk", "app", "avi", "bin", "bmp", "bz2", "dmg", "doc", "docx", "ear", "elf", "exe",
        "gif", "gz", "ico", "iso", "jar", "jpeg", "jpg", "m4a", "mov", "mp3", "mp4", "mpeg", "mpg",
        "o", "obj", "odp", "ods", "odt", "otf", "pdf", "pkg", "png", "rar", "rpm", "so", "svg", "tar",
        "ttf", "war", "webp", "wmv", "woff", "woff2", "xz", "zip",
    ];
    let ghost lv = Seq::new(list@.len(), |i: int| list@[i]@);
    assert(lv =~= skipped_extensions());
    let lower = to_lowercase(ext);
    let mut i: usize = 0;
    while i < list.len()
        invariant
            i <= list@.len(),
            lv == Seq::new(list@.len(), |i: int| list@[i]@),
            lv == skipped_extensions(),
            lower@ == lowercase(ext@),
            forall|j: int| 0 <= j < i ==> lv[j] != lower@,
        decreases list@.len() - i,
    {
        if str_eq(list[i], lower.as_str()) {
            assert(lv[i as int] == lower@);
            return true;
        }
        i = i + 1;
    }
    false
}

/// Whether a file is larger than the limit (in KiB) for checkpoints.
pub fn exceeds_size_limit(size: u64, max_size_kb: u64) -> (b: bool)
    requires
        max_size_kb * 1024 <= u64::MAX,
    ensures
        b == (size > max_size_kb * 1024),
{
    size > max_size_kb * 1024
}

/// Whether a text holds a NUL character (the mark of binary content).
pub fn has_nul(content: &str) -> (b: bool)
    ensures
        b == content@.contains('\u{0}'),
{
    let v = chars_of(content);
    let mut i: usize = 0;
    while i < v.len()
        invariant
            i <= v@.len(),
            v@ == content@,
            forall|j: int| 0 <= j < i ==> v@[j] != '\u{0}',
        decreases v@.len() - i,
    {
        if v[i] == '\u{0}' {
            return true;
        }
        i = i + 1;
    }
    false
}

/// A checkpoint's id: its time in milliseconds, `_`, and a short random token.
pub fn checkpoint_id(ts: u64, token: &str) -> (r: String)
    ensures
        r@ == decimal(ts as nat) + "_"@ + token@,
{
    let mut r = decimal_string(ts);
    append_str(&mut r, "_");
    append_str(&mut r, token);
    r
}

/// The file that holds a checkpoint.
pub fn checkpoint_file_name(id: &str) -> (r: String)
    ensures
        r@ == id@ + ".json"@,
{
    let mut r = String::from_str(id);
    append_str(&mut r, ".json");
    r
}

/// The id of the checkpoint a file holds: its name without `.json`, for `.json` files only.
pub open spec fn id_of_file_spec(name: Seq<char>) -> Option<Seq<char>> {
    if extension_spec(name) == Some("json"@) {
        Some(name.take(name.len() - 5))
    } else {
        None
    }
}

proof fn lemma_last_dot(s: Seq<char>, k: int)
    requires
        k < s.len(),
    ensures
        last_dot_from(s, k) matches Some(i) ==> 0 <= i <= k && s[i] == '.' && forall|j: int| i < j <= k ==> s[j] != '.',
        last_dot_from(s, k) is None ==> forall|j: int| 0 <= j <= k ==> s[j] != '.',
    decreases k + 1,
{
    if k >= 0 && s[k] != '.' {
        lemma_last_dot(s, k - 1);
    }
}

proof fn lemma_json_extension(s: Seq<char>)
    ensures
        (extension_spec(s) == Some("json"@)) == (has_suffix(s, ".json"@) && s.len() > 5),
{
    reveal_strlit(".json");
    reveal_strlit("json");
    let n = s.len() as int;
    lemma_last_dot(s, n - 1);
    if has_suffix(s, ".json"@) && n > 5 {
        assert(s.subrange(n - 5, n) == ".json"@);
        assert(s[n - 5] == s.subrange(n - 5, n)[0]);
        assert(s[n - 4] == s.subrange(n - 5, n)[1]);
        assert(s[n - 3] == s.subrange(n - 5, n)[2]);
        assert(s[n - 2] == s.subrange(n - 5, n)[3]);
        assert(s[n - 1] == s.subrange(n - 5, n)[4]);
        assert(last_dot_from(s, n - 1) == Some(n - 5)) by {
            assert(last_dot_from(s, n - 1) == last_dot_from(s, n - 2));
            assert(last_dot_from(s, n - 2) == last_dot_from(s, n - 3));
            assert(last_dot_from(s, n - 3) == last_dot_from(s, n - 4));
            assert(last_dot_from(s, n - 4) == last_dot_from(s, n - 5));
        }
        assert(s.skip(n - 4) =~= "json"@);
    }
    if extension_spec(s) == Some("json"@) {
        let k = last_dot_from(s, n - 1)->0;
        assert(s.skip(k + 1) == "json"@);
        assert(s.skip(k + 1).len() == 4);
        assert(k == n - 5);
        assert(s.subrange(n - 5, n) =~= seq![s[k]] + s.skip(k + 1));
        assert(s.subrange(n - 5, n) =~= ".json"@);
    }
}

pub fn checkpoint_id_of_file(name: &str) -> (r: Option<String>)
    ensures
        match id_of_file_spec(name@) {
            Some(id) => r matches Some(x) && x@ == id,
            None => r is None,
        },
{
    let v = chars_of(name);
    proof {
        lemma_json_extension(name@);
    }
    if v.len() > 5 && ends_with(&v, ".json") {
        let stem = slice_chars(&v, 0, v.len() - 5);
        assert(stem@ =~= name@.take(name@.len() - 5));
        Some(string_of(&stem))
    } else {
        None
    }
}

/// What a listing shows of a checkpoint.
pub struct CheckpointMeta {
    pub id: String,
    pub ts: u64,
    pub tool: String,
    pub path: String,
    pub size: u64,
    pub session_path: Option<String>,
    pub reason: Option<String>,
}

/// `v` with `x` put before the first element that is older: a stable insertion, newest first.
pub open spec fn insert_newest_first(v: Seq<CheckpointMeta>, x: CheckpointMeta) -> Seq<CheckpointMeta>
    decreases v.len(),
{
    if v.len() == 0 {
        seq![x]
    } else if v.last().ts >= x.ts {
        v.push(x)
    } else {
        insert_newest_first(v.drop_last(), x).push(v.last())
    }
}

/// The checkpoints newest first; those of the same time keep their order.
pub open spec fn newest_first(v: Seq<CheckpointMeta>) -> Seq<CheckpointMeta>
    decreases v.len(),
{
    if v.len() == 0 {
        v
    } else {
        insert_newest_first(newest_first(v.drop_last()), v.last())
    }
}

fn insert_checkpoint(v: &mut Vec<CheckpointMeta>, x: CheckpointMeta)
    ensures
        final(v)@ == insert_newest_first(old(v)@, x),
{
    let mut k: usize = v.len();
    assert(v@.take(k as int) =~= v@);
    assert(v@.skip(k as int) =~= Seq::<CheckpointMeta>::empty());
    assert(insert_newest_first(v@, x) + Seq::<CheckpointMeta>::empty() =~= insert_newest_first(v@, x));
    while k > 0 && v[k - 1].ts < x.ts
        invariant
            k <= v@.len(),
            *v == *old(v),
            insert_newest_first(v@, x) == insert_newest_first(v@.take(k as int), x) + v@.skip(k as int),
        decreases k,
    {
        let ghost s = v@;
        assert(s.take(k as int).drop_last() =~= s.take(k - 1));
        assert(s.take(k as int).last() == s[k - 1]);
        assert(s.skip(k - 1) =~= seq![s[k - 1]] + s.skip(k as int));
        assert(insert_newest_first(s.take(k as int), x) == insert_newest_first(s.take(k - 1), x).push(s[k - 1]));
        assert(insert_newest_first(s.take(k - 1), x).push(s[k - 1]) + s.skip(k as int) =~= insert_newest_first(
            s.take(k - 1),
            x,
        ) + s.skip(k - 1));
        k = k - 1;
    }
    let ghost s = v@;
    proof {
        if k > 0 {
            assert(s.take(k as int).last() == s[k - 1]);
            assert(insert_newest_first(s.take(k as int), x) == s.take(k as int).push(x));
        } else {
            assert(s.take(0) =~= Seq::<CheckpointMeta>::empty());
        }
    }
    v.insert(k, x);
    assert(v@ =~= s.take(k as int).push(x) + s.skip(k as int));
}

/// The checkpoints of a listing, newest first (equal times in the order given).
pub fn order_checkpoints(metas: Vec<CheckpointMeta>) -> (r: Vec<CheckpointMeta>)
    ensures
        r@ == newest_first(metas@),
{
    let ghost orig = metas@;
    let mut rest = metas;
    let n0 = rest.len();
    let mut out: Vec<CheckpointMeta> = Vec::new();
    let mut i: usize = 0;
    assert(orig.take(0) =~= Seq::<CheckpointMeta>::empty());
    while rest.len() > 0
        invariant
            i + rest@.len() == orig.len(),
            orig.len() == n0,
            rest@ == orig.skip(i as int),
            out@ == newest_first(orig.take(i as int)),
        decreases rest@.len(),
    {
        let x = rest.remove(0);
        assert(rest@ =~= orig.skip(i + 1)) by {
            assert(orig.skip(i as int).drop_first() =~= orig.skip(i + 1));
        }
        assert(x == orig[i as int]) by {
            assert(orig.skip(i as int)[0] == orig[i as int]);
        }
        assert(orig.take(i + 1).drop_last() =~= orig.take(i as int));
        assert(orig.take(i + 1).last() == orig[i as int]);
        insert_checkpoint(&mut out, x);
        i = i + 1;
    }
    assert(orig.take(orig.len() as int) =~= orig);
    out
}

proof fn lemma_insert_newest(v: Seq<CheckpointMeta>, x: CheckpointMeta)
    requires
        forall|a: int, b: int| 0 <= a < b < v.len() ==> (#[trigger] v[a]).ts >= (#[trigger] v[b]).ts,
    ensures
        forall|a: int, b: int| 0 <= a < b < insert_newest_first(v, x).len() ==> (#[trigger] insert_newest_first(v, x)[a]).ts
            >= (#[trigger] insert_newest_first(v, x)[b]).ts,
        insert_newest_first(v, x).len() == v.len() + 1,
        forall|a: int| 0 <= a < insert_newest_first(v, x).len() ==> (#[trigger] insert_newest_first(v, x)[a]).ts >= (if v.len()
            > 0 && v.last().ts < x.ts {
            v.last().ts
        } else {
            x.ts
        }),
    decreases v.len(),
{
    if v.len() > 0 && v.last().ts < x.ts {
        let d = v.drop_last();
        assert forall|a: int, b: int| 0 <= a < b < d.len() implies (#[trigger] d[a]).ts >= (#[trigger] d[b]).ts by {
            assert(d[a] == v[a] && d[b] == v[b]);
        }
        lemma_insert_newest(d, x);
        let r = insert_newest_first(d, x);
        assert forall|a: int| 0 <= a < r.len() implies (#[trigger] r[a]).ts >= v.last().ts by {
            if d.len() > 0 && d.last().ts < x.ts {
                assert(d.last() == v[v.len() - 2]);
            }
        }
        let r2 = r.push(v.last());
        assert forall|a: int, b: int| 0 <= a < b < r2.len() implies (#[trigger] r2[a]).ts >= (#[trigger] r2[b]).ts by {
            if b == r2.len() - 1 {
                assert(r2[a] == r[a]);
            } else {
                assert(r2[a] == r[a] && r2[b] == r[b]);
            }
        }
    } else {
        let r2 = v.push(x);
        assert forall|a: int, b: int| 0 <= a < b < r2.len() implies (#[trigger] r2[a]).ts >= (#[trigger] r2[b]).ts by {
            if b == r2.len() - 1 {
                if v.len() > 0 {
                    assert(v[a].ts >= v.last().ts) by {
                        if a < v.len() - 1 {
                            assert(v[a].ts >= v[v.len() - 1].ts);
                        }
                    }
                }
            }
        }
    }
}

proof fn lemma_insert_newest_multiset(v: Seq<CheckpointMeta>, x: CheckpointMeta)
    ensures
        insert_newest_first(v, x).to_multiset() =~= v.to_multiset().insert(x),
    decreases v.len(),
{
    broadcast use vstd::seq_lib::group_to_multiset_ensures;
    broadcast use vstd::multiset::group_multiset_axioms;

    if v.len() == 0 {
        assert(seq![x] =~= v.push(x));
    } else if v.last().ts < x.ts {
        let d = v.drop_last();
        lemma_insert_newest_multiset(d, x);
        assert(v =~= d.push(v.last()));
        assert(insert_newest_first(d, x).push(v.last()).to_multiset() =~= insert_newest_first(d, x).to_multiset().insert(
            v.last(),
        ));
        assert(d.to_multiset().insert(x).insert(v.last()) =~= d.to_multiset().insert(v.last()).insert(x));
    }
}

/// A listing is newest first: each checkpoint is at least as recent as every one after it,
/// and the listing holds the same checkpoints as were read, none lost or added.
pub proof fn law_listing_newest_first(v: Seq<CheckpointMeta>)
    ensures
        newest_first(v).len() == v.len(),
        newest_first(v).to_multiset() =~= v.to_multiset(),
        forall|a: int, b: int| 0 <= a < b < newest_first(v).len() ==> (#[trigger] newest_first(v)[a]).ts >= (#[trigger] newest_first(v)[b]).ts,
    decreases v.len(),
{
    broadcast use vstd::seq_lib::group_to_multiset_ensures;

    if v.len() > 0 {
        law_listing_newest_first(v.drop_last());
        lemma_insert_newest(newest_first(v.drop_last()), v.last());
        lemma_insert_newest_multiset(newest_first(v.drop_last()), v.last());
        assert(v =~= v.drop_last().push(v.last()));
    }
}

/// The time before which checkpoints are removed: `retention_days` days before now (in
/// milliseconds).
pub fn cleanup_cutoff(now_ms: u64, retention_days: u32) -> (r: u64)
    requires
        retention_days * 86_400_000 <= now_ms,
    ensures
        r == now_ms - retention_days * 86_400_000,
{
    now_ms - (retention_days as u64) * 86_400_000
}

/// A checkpoint as stored: the content of a file before a tool changed it, and what is known
/// of the change.
pub struct CheckpointEntry {
    pub ts: u64,
    pub tool: String,
    pub path: String,
    pub size: u64,
    pub content: String,
    pub session_path: Option<String>,
    pub reason: Option<String>,
}

/// What a restore wrote back, and where.
pub struct CheckpointRestore {
    pub path: String,
    pub content: String,
}

pub open spec fn str_opt(o: Option<&str>) -> Option<Seq<char>> {
    match o {
        Some(s) => Some(s@),
        None => None,
    }
}

pub open spec fn string_opt(o: Option<String>) -> Option<Seq<char>> {
    match o {
        Some(s) => Some(s@),
        None => None,
    }
}

fn owned_opt(o: Option<&str>) -> (r: Option<String>)
    ensures
        string_opt(r) == str_opt(o),
{
    match o {
        Some(s) => Some(String::from_str(s)),
        None => None,
    }
}

/// The checkpoint of a file whose content was read at `ts` (milliseconds); `None` when the
/// content holds a NUL character, the mark of a binary file, which is not kept.
pub fn capture_entry(
    ts: u64,
    tool: &str,
    path: &str,
    size: u64,
    content: String,
    session_path: Option<&str>,
    reason: Option<&str>,
) -> (r: Option<CheckpointEntry>)
    ensures
        r is None <==> content@.contains('\u{0}'),
        r matches Some(e) ==> {
            &&& e.ts == ts
            &&& e.tool@ == tool@
            &&& e.path@ == path@
            &&& e.size == size
            &&& e.content@ == content@
            &&& string_opt(e.session_path) == str_opt(session_path)
            &&& string_opt(e.reason) == str_opt(reason)
        },
{
    if has_nul(content.as_str()) {
        return None;
    }
    Some(
        CheckpointEntry {
            ts,
            tool: String::from_str(tool),
            path: String::from_str(path),
            size,
            content,
            session_path: owned_opt(session_path),
            reason: owned_opt(reason),
        },
    )
}

impl CheckpointEntry {
    /// What a listing shows of this checkpoint, under the id it is stored by.
    pub fn meta(self, id: String) -> (m: CheckpointMeta)
        ensures
            m == (CheckpointMeta {
                id,
                ts: self.ts,
                tool: self.tool,
                path: self.path,
                size: self.size,
                session_path: self.session_path,
                reason: self.reason,
            }),
    {
        CheckpointMeta {
            id,
            ts: self.ts,
            tool: self.tool,
            path: self.path,
            size: self.size,
            session_path: self.session_path,
            reason: self.reason,
        }
    }

    /// What restoring this checkpoint writes: its content, back to its file.
    pub fn restored(self) -> (r: CheckpointRestore)
        ensures
            r == (CheckpointRestore { path: self.path, content: self.content }),
    {
        CheckpointRestore { path: self.path, content: self.content }
    }
}

/// Whether a checkpoint is older than the cutoff.
pub fn is_expired(ts: u64, cutoff: u64) -> (b: bool)
    ensures
        b == (ts < cutoff),
{
    ts < cutoff
}

} // verus!
