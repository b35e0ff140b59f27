//! Skills: where they are looked for, how a SKILL.md splits into frontmatter and body,
//! and how skills found in several places are merged.

use std::path::PathBuf;
use vstd::prelude::*;

use crate::text::{
    chars_of, find_str, find_spec, has_prefix, lead_ws_count, lemma_find_from_bounds, lemma_lead_ws_bound, lines_spec,
    slice_chars, starts_with, str_eq, string_of, trim_chars, trim_spec, trim_start_spec, lines_of,
};

verus! {

#[derive(Debug, Clone)]
pub enum SkillSource {
    Project { cwd: PathBuf },
    UserGlobal { data_dir: PathBuf },
    Plugin { plugin_name: String, plugin_dir: PathBuf },
    Marketplace,
}

pub struct SkillLoader {
    search_paths: Vec<(PathBuf, String)>,
}

impl SkillLoader {
    /// The directories searched, in order, with their labels.
    pub closed spec fn search_paths(&self) -> Seq<(PathBuf, Seq<char>)> {
        self.search_paths@.map_values(|e: (PathBuf, String)| (e.0, e.1@))
    }

    pub fn new() -> (l: Self)
        ensures
            l.search_paths() == Seq::<(PathBuf, Seq<char>)>::empty(),
    {
        let l = SkillLoader { search_paths: Vec::new() };
        assert(l.search_paths() =~= Seq::<(PathBuf, Seq<char>)>::empty());
        l
    }

    pub fn add_path(&mut self, path: PathBuf, label: &str)
        ensures
            final(self).search_paths() == old(self).search_paths().push((path, label@)),
    {
        self.search_paths.push((path, String::from_str(label)));
        assert(self.search_paths() =~= old(self).search_paths().push((path, label@)));
    }

    /// The directories searched, in order, with their labels.
    pub fn paths(&self) -> (r: &Vec<(PathBuf, String)>)
        ensures
            r@.map_values(|e: (PathBuf, String)| (e.0, e.1@)) == self.search_paths(),
    {
        &self.search_paths
    }
}

/// How the text of a SKILL.md divides.
#[derive(Debug, Clone)]
pub enum FrontmatterSplit {
    /// No frontmatter: the first line serves as description; the whole trimmed text is the body.
    Plain { first_line: String, body: String },
    /// YAML between the opening `---` and the next line that starts with `---`, and the body after it.
    Yaml { yaml: String, body: String },
    /// An opening `---` that is never closed: the whole trimmed text is the body.
    Unterminated { body: String },
}

/// The first line of `s` (empty if it has none).
pub open spec fn first_line(s: Seq<char>) -> Seq<char> {
    if lines_spec(s).len() > 0 { lines_spec(s)[0] } else { Seq::empty() }
}

/// How `content` splits: see `FrontmatterSplit`.
pub open spec fn frontmatter_split_spec(r: FrontmatterSplit, content: Seq<char>) -> bool {
    let t = trim_spec(content);
    if !has_prefix(t, "---"@) {
        r matches FrontmatterSplit::Plain { first_line: f, body } && f@ == first_line(t) && body@ == t
    } else {
        let after = t.skip(3);
        match find_spec(after, "\n---"@) {
            Some(end) => r matches FrontmatterSplit::Yaml { yaml, body } && yaml@ == trim_spec(after.take(end))
                && body@ == trim_spec(after.skip(end + 4)),
            None => r matches FrontmatterSplit::Unterminated { body } && body@ == t,
        }
    }
}

/// Split the text of a SKILL.md into its YAML frontmatter and body.
pub fn split_frontmatter_text(content: &str) -> (r: FrontmatterSplit)
    ensures
        frontmatter_split_spec(r, content@),
{
    let v = chars_of(content);
    let t = trim_chars(&v);
    if !starts_with(&t, "---") {
        let ls = lines_of(&t);
        let first = if ls.len() > 0 { string_of(&ls[0]) } else { String::new() };
        return FrontmatterSplit::Plain { first_line: first, body: string_of(&t) };
    }
    proof { reveal_strlit("---"); reveal_strlit("\n---"); }
    let after = slice_chars(&t, 3, t.len());
    assert(after@ =~= t@.skip(3));
    match find_str(&after, "\n---") {
        Some(end) => {
            proof { lemma_find_from_bounds(after@, "\n---"@, 0); }
            let y = slice_chars(&after, 0, end);
            assert(y@ =~= after@.take(end as int));
            let b = slice_chars(&after, end + 4, after.len());
            assert(b@ =~= after@.skip(end + 4));
            let yt = trim_chars(&y);
            let bt = trim_chars(&b);
            FrontmatterSplit::Yaml { yaml: string_of(&yt), body: string_of(&bt) }
        },
        None => FrontmatterSplit::Unterminated { body: string_of(&t) },
    }
}

/// The YAML of a SKILL.md frontmatter, as the skill scanner reads it: after leading
/// whitespace, an opening `---`, then everything up to the next line that starts with `---`
/// (or to the end, when none does).
pub open spec fn frontmatter_yaml_spec(content: Seq<char>) -> Option<Seq<char>> {
    let t = trim_start_spec(content);
    if !has_prefix(t, "---"@) {
        None
    } else {
        let after = t.skip(3);
        match find_spec(after, "\n---"@) {
            Some(end) => Some(after.take(end)),
            None => Some(after),
        }
    }
}

pub fn frontmatter_yaml(content: &str) -> (r: Option<String>)
    ensures
        match r {
            Some(y) => frontmatter_yaml_spec(content@) == Some(y@),
            None => frontmatter_yaml_spec(content@) is None,
        },
{
    let v = chars_of(content);
    let k = lead_ws_count(&v);
    proof { lemma_lead_ws_bound(v@); }
    let t = slice_chars(&v, k, v.len());
    assert(t@ =~= trim_start_spec(v@));
    if !starts_with(&t, "---") {
        return None;
    }
    proof { reveal_strlit("---"); }
    let after = slice_chars(&t, 3, t.len());
    assert(after@ =~= t@.skip(3));
    match find_str(&after, "\n---") {
        Some(end) => {
            proof { lemma_find_from_bounds(after@, "\n---"@, 0); }
            let y = slice_chars(&after, 0, end);
            assert(y@ =~= after@.take(end as int));
            Some(string_of(&y))
        },
        None => Some(string_of(&after)),
    }
}

/// The frontmatter fields of a SKILL.md that the scanner reads.
#[derive(Debug, Clone)]
pub struct SkillMetadata {
    pub name: String,
    pub description: String,
    pub default_enabled: bool,
    pub disable_model_invocation: bool,
}

/// What a frontmatter field `default_enabled` is when absent.
pub fn default_true() -> (b: bool)
    ensures
        b,
{
    true
}

impl Default for SkillMetadata {
    /// The metadata of a SKILL.md without usable frontmatter: all empty, all off.
    fn default() -> (m: Self)
        ensures
            m.name@.len() == 0 && m.description@.len() == 0,
            !m.default_enabled && !m.disable_model_invocation,
    {
        SkillMetadata { name: String::new(), description: String::new(), default_enabled: false, disable_model_invocation: false }
    }
}

/// A user skill discovered from the filesystem.
#[derive(Debug, Clone)]
pub struct UserSkill {
    pub name: String,
    pub description: String,
    pub file_path: String,
    pub base_dir: String,
    pub source: String,
    pub default_enabled: bool,
    pub disable_model_invocation: bool,
    pub external_label: Option<String>,
    pub external_path: Option<String>,
    pub learned_agent_id: Option<String>,
}

/// The skill of a folder whose SKILL.md has the given metadata: named after the folder when
/// the metadata gives no name.
pub fn skill_from_metadata(meta: SkillMetadata, dir_name: &str, file_path: &str, base_dir: &str, source: &str) -> (r: UserSkill)
    ensures
        r.name@ == (if meta.name@.len() == 0 { dir_name@ } else { meta.name@ }),
        r.description == meta.description,
        r.file_path@ == file_path@ && r.base_dir@ == base_dir@ && r.source@ == source@,
        r.default_enabled == meta.default_enabled,
        r.disable_model_invocation == meta.disable_model_invocation,
        r.external_label is None && r.external_path is None && r.learned_agent_id is None,
{
    let name = if meta.name.as_str().is_empty() {
        String::from_str(dir_name)
    } else {
        meta.name
    };
    UserSkill {
        name: name,
        description: meta.description,
        file_path: String::from_str(file_path),
        base_dir: String::from_str(base_dir),
        source: String::from_str(source),
        default_enabled: meta.default_enabled,
        disable_model_invocation: meta.disable_model_invocation,
        external_label: None,
        external_path: None,
        learned_agent_id: None,
    }
}

/// `s` recorded as learned by the agent `agent` (only `learned_agent_id` differs).
pub open spec fn learned_by(s: UserSkill, o: UserSkill, agent: Seq<char>) -> bool {
    &&& s.learned_agent_id matches Some(a) && a@ == agent
    &&& s.name == o.name && s.description == o.description && s.file_path == o.file_path
    &&& s.base_dir == o.base_dir && s.source == o.source && s.default_enabled == o.default_enabled
    &&& s.disable_model_invocation == o.disable_model_invocation
    &&& s.external_label == o.external_label && s.external_path == o.external_path
}

/// The skills found in an agent's learned-skills folder, each marked as learned by `agent_id`.
pub fn scan_learned_skills_dir(skills: Vec<UserSkill>, agent_id: &str) -> (r: Vec<UserSkill>)
    ensures
        r@.len() == skills@.len(),
        forall|i: int| 0 <= i < r@.len() ==> learned_by(#[trigger] r@[i], skills@[i], agent_id@),
{
    let ghost orig = skills@;
    let mut rest = skills;
    let n0 = rest.len();
    assert(orig.len() == n0);
    let mut out: Vec<UserSkill> = Vec::new();
    let mut i: usize = 0;
    while rest.len() > 0
        invariant
            orig.len() <= usize::MAX,
            i + rest@.len() == orig.len(),
            rest@ == orig.skip(i as int),
            out@.len() == i,
            forall|j: int| 0 <= j < i ==> learned_by(#[trigger] out@[j], orig[j], agent_id@),
        decreases rest@.len(),
    {
        let mut s = rest.remove(0);
        assert(s == orig[i as int]);
        s.learned_agent_id = Some(String::from_str(agent_id));
        out.push(s);
        assert(rest@ =~= orig.skip(i + 1));
        i = i + 1;
    }
    out
}

/// The skills of the external folders, one after another: (folder, label, skill).
pub open spec fn flat_found(found: Seq<(String, String, Vec<UserSkill>)>) -> Seq<(String, String, UserSkill)>
    decreases found.len(),
{
    if found.len() == 0 {
        Seq::empty()
    } else {
        let g = found.last();
        flat_found(found.drop_last()) + Seq::new(g.2@.len(), |k: int| (g.0, g.1, g.2@[k]))
    }
}

/// Whether a skill named `name` comes before position `k`.
pub open spec fn name_seen_before(v: Seq<(String, String, UserSkill)>, name: Seq<char>, k: int) -> bool {
    exists|j: int| 0 <= j < k && (#[trigger] v[j]).2.name@ == name
}

/// The skill of an external folder, recording the folder and its label.
pub open spec fn tagged(item: (String, String, UserSkill)) -> UserSkill {
    UserSkill {
        name: item.2.name,
        description: item.2.description,
        file_path: item.2.file_path,
        base_dir: item.2.base_dir,
        source: item.2.source,
        default_enabled: item.2.default_enabled,
        disable_model_invocation: item.2.disable_model_invocation,
        external_label: Some(item.1),
        external_path: Some(item.0),
        learned_agent_id: item.2.learned_agent_id,
    }
}

/// The first skill of each name, tagged with its folder and label, in order.
pub open spec fn first_by_name(v: Seq<(String, String, UserSkill)>) -> Seq<UserSkill>
    decreases v.len(),
{
    if v.len() == 0 {
        Seq::empty()
    } else {
        let rest = first_by_name(v.drop_last());
        if name_seen_before(v, v.last().2.name@, v.len() - 1) {
            rest
        } else {
            rest.push(tagged(v.last()))
        }
    }
}

fn flatten_found(found: Vec<(String, String, Vec<UserSkill>)>) -> (r: Vec<(String, String, UserSkill)>)
    ensures
        r@ == flat_found(found@),
{
    let ghost orig = found@;
    let mut rest = found;
    let n0 = rest.len();
    assert(orig.len() == n0);
    let mut out: Vec<(String, String, UserSkill)> = Vec::new();
    let mut g: usize = 0;
    while rest.len() > 0
        invariant
            orig.len() <= usize::MAX,
            g + rest@.len() == orig.len(),
            rest@ == orig.skip(g as int),
            out@ == flat_found(orig.take(g as int)),
        decreases rest@.len(),
    {
        let (dir, label, skills) = rest.remove(0);
        assert((dir, label, skills) == orig[g as int]);
        assert(rest@ =~= orig.skip(g + 1));
        let ghost gs = skills@;
        let ghost before = out@;
        let mut srest = skills;
        let sn = srest.len();
        assert(gs.len() == sn);
        let mut k: usize = 0;
        while srest.len() > 0
            invariant
                k + srest@.len() == gs.len(),
                gs.len() <= usize::MAX,
                srest@ == gs.skip(k as int),
                out@ == before + Seq::new(k as nat, |t: int| (dir, label, gs[t])),
            decreases srest@.len(),
        {
            let sk = srest.remove(0);
            assert(sk == gs[k as int]);
            assert(srest@ =~= gs.skip(k + 1));
            out.push((dir.clone(), label.clone(), sk));
            assert(out@ =~= before + Seq::new((k + 1) as nat, |t: int| (dir, label, gs[t])));
            k = k + 1;
        }
        assert(orig.take(g + 1).drop_last() =~= orig.take(g as int));
        assert(orig.take(g + 1).last() == orig[g as int]);
        assert(out@ =~= flat_found(orig.take(g + 1)));
        g = g + 1;
    }
    assert(orig.take(orig.len() as int) =~= orig);
    out
}

/// Skills found under external folders, given as (folder, label, skills found there) for each
/// folder that exists, in order: the first skill of each name is kept and records its folder
/// and the folder's label; later skills of a name already taken are left out.
pub fn scan_external_paths(found: Vec<(String, String, Vec<UserSkill>)>) -> (r: Vec<UserSkill>)
    ensures
        r@ == first_by_name(flat_found(found@)),
{
    let items = flatten_found(found);
    let ghost orig = items@;
    let mut rest = items;
    let n0 = rest.len();
    assert(orig.len() == n0);
    let mut kept: Vec<UserSkill> = Vec::new();
    let mut seen: Vec<String> = Vec::new();
    let mut i: usize = 0;
    while rest.len() > 0
        invariant
            orig.len() <= usize::MAX,
            i + rest@.len() == orig.len(),
            rest@ == orig.skip(i as int),
            kept@ == first_by_name(orig.take(i as int)),
            seen@.len() == i,
            forall|j: int| 0 <= j < i ==> (#[trigger] seen@[j])@ == orig[j].2.name@,
        decreases rest@.len(),
    {
        let (dir, label, sk) = rest.remove(0);
        assert((dir, label, sk) == orig[i as int]);
        assert(rest@ =~= orig.skip(i + 1));
        let mut dup = false;
        let mut j: usize = 0;
        while j < seen.len()
            invariant
                j <= seen.len(),
                seen@.len() == i,
                i < orig.len(),
                sk == orig[i as int].2,
                forall|t: int| 0 <= t < i ==> (#[trigger] seen@[t])@ == orig[t].2.name@,
                dup == (exists|t: int| 0 <= t < j && (#[trigger] orig[t]).2.name@ == sk.name@),
            decreases seen.len() - j,
        {
            if seen[j] == sk.name {
                assert(orig[j as int].2.name@ == sk.name@);
                dup = true;
            }
            j = j + 1;
        }
        let ghost t = orig.take(i + 1);
        assert(t.drop_last() =~= orig.take(i as int));
        assert(t.last() == orig[i as int]);
        assert(name_seen_before(t, t.last().2.name@, i as int) == dup) by {
            if dup {
                let w = choose|w: int| 0 <= w < i && (#[trigger] orig[w]).2.name@ == sk.name@;
                assert(t[w] == orig[w]);
            }
            if name_seen_before(t, t.last().2.name@, i as int) {
                let w = choose|w: int| 0 <= w < i && (#[trigger] t[w]).2.name@ == t.last().2.name@;
                assert(t[w] == orig[w]);
            }
        }
        seen.push(sk.name.clone());
        if !dup {
            let ghost item = (dir, label, sk);
            let s = UserSkill {
                name: sk.name,
                description: sk.description,
                file_path: sk.file_path,
                base_dir: sk.base_dir,
                source: sk.source,
                default_enabled: sk.default_enabled,
                disable_model_invocation: sk.disable_model_invocation,
                external_label: Some(label),
                external_path: Some(dir),
                learned_agent_id: sk.learned_agent_id,
            };
            assert(s == tagged(item));
            kept.push(s);
        }
        i = i + 1;
    }
    assert(orig.take(orig.len() as int) =~= orig);
    kept
}

/// The merged external skills have distinct names.
pub proof fn law_external_names_distinct(v: Seq<(String, String, UserSkill)>)
    ensures
        forall|a: int, b: int| 0 <= a < b < first_by_name(v).len() ==> (#[trigger] first_by_name(v)[a]).name@ != (#[trigger] first_by_name(v)[b]).name@,
        forall|a: int| 0 <= a < first_by_name(v).len() ==> exists|j: int| 0 <= j < v.len() && #[trigger] first_by_name(v)[a] == tagged(v[j]),
    decreases v.len(),
{
    if v.len() > 0 {
        let d = v.drop_last();
        law_external_names_distinct(d);
        let r = first_by_name(d);
        assert forall|a: int| 0 <= a < r.len() implies exists|j: int| 0 <= j < v.len() && #[trigger] r[a] == tagged(v[j]) by {
            let j = choose|j: int| 0 <= j < d.len() && #[trigger] r[a] == tagged(d[j]);
            assert(v[j] == d[j]);
        }
        if !name_seen_before(v, v.last().2.name@, v.len() - 1) {
            let rr = r.push(tagged(v.last()));
            assert forall|a: int| 0 <= a < r.len() implies (#[trigger] rr[a]).name@ != v.last().2.name@ by {
                let j = choose|j: int| 0 <= j < d.len() && #[trigger] r[a] == tagged(d[j]);
                assert(v[j] == d[j]);
            }
            assert(rr[r.len() as int] == tagged(v[v.len() - 1]));
        }
    }
}

} // verus!
