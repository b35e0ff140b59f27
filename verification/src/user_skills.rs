//! The skills a user sees for an agent: the user's own, the agent's learned ones and those of
//! external folders, merged by name; which of them are switched on; and the external folders
//! that are searched.

use vstd::prelude::*;

use crate::render_text::lemma_filter_step;
use crate::skills::UserSkill;
use crate::text::{append_str, chars_of, has_prefix, starts_with, str_eq};

verus! {

/// Where a skill of the merged list comes from.
#[derive(Debug, Clone, Copy, PartialEq, Eq, Structural)]
pub enum SkillOrigin {
    User,
    Learned,
    External,
}

/// A skill as the settings screen lists it.
pub struct SkillRow {
    pub name: String,
    pub description: String,
    pub file_path: String,
    pub base_dir: String,
    pub source: String,
    pub enabled: bool,
    pub external_label: Option<String>,
    pub external_path: Option<String>,
    /// Skills that come with a plugin cannot be edited.
    pub readonly: bool,
}

pub open spec fn names_view(v: Seq<String>) -> Seq<Seq<char>> {
    Seq::new(v.len(), |i: int| v[i]@)
}

/// Whether a label names a plugin.
pub open spec fn plugin_label(label: Option<String>) -> bool {
    match label {
        Some(l) => has_prefix(l@, "plugin:"@),
        None => false,
    }
}

/// The row of a skill: its source is its own for the user's skills, else `learned` or
/// `external`; external skills keep their folder and label, and are read-only when their
/// label names a plugin.
pub open spec fn row_of(origin: SkillOrigin, s: UserSkill, enabled: Seq<Seq<char>>, r: SkillRow) -> bool {
    &&& r.name == s.name
    &&& r.description == s.description
    &&& r.file_path == s.file_path
    &&& r.base_dir == s.base_dir
    &&& r.source@ == match origin {
        SkillOrigin::User => s.source@,
        SkillOrigin::Learned => "learned"@,
        SkillOrigin::External => "external"@,
    }
    &&& r.enabled == enabled.contains(s.name@)
    &&& r.external_label == if origin == SkillOrigin::External { s.external_label } else { None }
    &&& r.external_path == if origin == SkillOrigin::External { s.external_path } else { None }
    &&& r.readonly == (origin == SkillOrigin::External && plugin_label(s.external_label))
}

/// Whether a skill named `name` comes before position `k`.
pub open spec fn seen_before(all: Seq<(SkillOrigin, UserSkill)>, name: Seq<char>, k: int) -> bool {
    exists|j: int| 0 <= j < k && (#[trigger] all[j]).1.name@ == name
}

/// The positions of the skills that are listed: the first of each name.
pub open spec fn listed_positions(all: Seq<(SkillOrigin, UserSkill)>, k: int) -> Seq<int>
    decreases k,
{
    if k <= 0 || k > all.len() {
        Seq::empty()
    } else if seen_before(all, all[k - 1].1.name@, k - 1) {
        listed_positions(all, k - 1)
    } else {
        listed_positions(all, k - 1).push(k - 1)
    }
}

/// The skills of the three sources one after another, each with its source.
pub open spec fn all_skills(user: Seq<UserSkill>, learned: Seq<UserSkill>, external: Seq<UserSkill>) -> Seq<(SkillOrigin, UserSkill)> {
    Seq::new(user.len(), |i: int| (SkillOrigin::User, user[i])) + Seq::new(
        learned.len(),
        |i: int| (SkillOrigin::Learned, learned[i]),
    ) + Seq::new(external.len(), |i: int| (SkillOrigin::External, external[i]))
}

fn row_for(origin: SkillOrigin, s: UserSkill, enabled: &Vec<String>) -> (r: SkillRow)
    ensures
        row_of(origin, s, names_view(enabled@), r),
{
    let mut on = false;
    let mut i: usize = 0;
    while i < enabled.len()
        invariant
            i <= enabled@.len(),
            on == exists|j: int| 0 <= j < i && (#[trigger] names_view(enabled@)[j]) == s.name@,
        decreases enabled@.len() - i,
    {
        if str_eq(enabled[i].as_str(), s.name.as_str()) {
            assert(names_view(enabled@)[i as int] == s.name@);
            on = true;
        }
        i = i + 1;
    }
    assert(on == names_view(enabled@).contains(s.name@));
    let (label, path, readonly) = match origin {
        SkillOrigin::External => {
            let ro = match &s.external_label {
                Some(l) => starts_with(&chars_of(l.as_str()), "plugin:"),
                None => false,
            };
            (s.external_label, s.external_path, ro)
        },
        _ => (None, None, false),
    };
    let source = match origin {
        SkillOrigin::User => s.source,
        SkillOrigin::Learned => String::from_str("learned"),
        SkillOrigin::External => String::from_str("external"),
    };
    SkillRow {
        name: s.name,
        description: s.description,
        file_path: s.file_path,
        base_dir: s.base_dir,
        source,
        enabled: on,
        external_label: label,
        external_path: path,
        readonly,
    }
}

fn gather(user: Vec<UserSkill>, learned: Vec<UserSkill>, external: Vec<UserSkill>) -> (r: Vec<(SkillOrigin, UserSkill)>)
    ensures
        r@ == all_skills(user@, learned@, external@),
{
    let mut items: Vec<(SkillOrigin, UserSkill)> = Vec::new();
    let mut u = user;
    let mut l = learned;
    let mut e = external;
    let ghost uv = u@;
    let ghost lv = l@;
    let ghost ev = e@;
    while u.len() > 0
        invariant
            items@ + Seq::new(u@.len(), |i: int| (SkillOrigin::User, u@[i])) == Seq::new(
                uv.len(),
                |i: int| (SkillOrigin::User, uv[i]),
            ),
        decreases u@.len(),
    {
        let ghost before = items@;
        let ghost ubefore = u@;
        let x = u.remove(0);
        items.push((SkillOrigin::User, x));
        assert(Seq::new(ubefore.len(), |i: int| (SkillOrigin::User, ubefore[i])) =~= seq![(SkillOrigin::User, x)]
            + Seq::new(u@.len(), |i: int| (SkillOrigin::User, u@[i])));
        assert(items@ + Seq::new(u@.len(), |i: int| (SkillOrigin::User, u@[i])) =~= before + Seq::new(
            ubefore.len(),
            |i: int| (SkillOrigin::User, ubefore[i]),
        ));
    }
    assert(items@ =~= Seq::new(uv.len(), |i: int| (SkillOrigin::User, uv[i])));
    let ghost part1 = items@;
    while l.len() > 0
        invariant
            items@ + Seq::new(l@.len(), |i: int| (SkillOrigin::Learned, l@[i])) == part1 + Seq::new(
                lv.len(),
                |i: int| (SkillOrigin::Learned, lv[i]),
            ),
        decreases l@.len(),
    {
        let ghost before = items@;
        let ghost lbefore = l@;
        let x = l.remove(0);
        items.push((SkillOrigin::Learned, x));
        assert(Seq::new(lbefore.len(), |i: int| (SkillOrigin::Learned, lbefore[i])) =~= seq![(SkillOrigin::Learned, x)]
            + Seq::new(l@.len(), |i: int| (SkillOrigin::Learned, l@[i])));
        assert(items@ + Seq::new(l@.len(), |i: int| (SkillOrigin::Learned, l@[i])) =~= before + Seq::new(
            lbefore.len(),
            |i: int| (SkillOrigin::Learned, lbefore[i]),
        ));
    }
    assert(items@ =~= part1 + Seq::new(lv.len(), |i: int| (SkillOrigin::Learned, lv[i])));
    let ghost part2 = items@;
    while e.len() > 0
        invariant
            items@ + Seq::new(e@.len(), |i: int| (SkillOrigin::External, e@[i])) == part2 + Seq::new(
                ev.len(),
                |i: int| (SkillOrigin::External, ev[i]),
            ),
        decreases e@.len(),
    {
        let ghost before = items@;
        let ghost ebefore = e@;
        let x = e.remove(0);
        items.push((SkillOrigin::External, x));
        assert(Seq::new(ebefore.len(), |i: int| (SkillOrigin::External, ebefore[i])) =~= seq![(SkillOrigin::External, x)]
            + Seq::new(e@.len(), |i: int| (SkillOrigin::External, e@[i])));
        assert(items@ + Seq::new(e@.len(), |i: int| (SkillOrigin::External, e@[i])) =~= before + Seq::new(
            ebefore.len(),
            |i: int| (SkillOrigin::External, ebefore[i]),
        ));
    }
    assert(items@ =~= part2 + Seq::new(ev.len(), |i: int| (SkillOrigin::External, ev[i])));
    items
}

proof fn lemma_listed(all: Seq<(SkillOrigin, UserSkill)>, k: int)
    requires
        0 <= k <= all.len(),
    ensures
        forall|t: int| 0 <= t < listed_positions(all, k).len() ==> 0 <= #[trigger] listed_positions(all, k)[t] < k,
        forall|j: int| 0 <= j < k ==> exists|t: int| 0 <= t < listed_positions(all, k).len() && all[#[trigger] listed_positions(all, k)[t]].1.name@ == (#[trigger] all[j]).1.name@,
    decreases k,
{
    if k > 0 {
        lemma_listed(all, k - 1);
        let p = listed_positions(all, k - 1);
        let q = listed_positions(all, k);
        assert forall|j: int| 0 <= j < k implies exists|t: int| 0 <= t < q.len() && all[#[trigger] q[t]].1.name@ == (#[trigger] all[j]).1.name@ by {
            if j < k - 1 {
                let t = choose|t: int| 0 <= t < p.len() && all[#[trigger] p[t]].1.name@ == (#[trigger] all[j]).1.name@;
                assert(q[t] == p[t]);
            } else if seen_before(all, all[k - 1].1.name@, k - 1) {
                let i = choose|i: int| 0 <= i < k - 1 && (#[trigger] all[i]).1.name@ == all[k - 1].1.name@;
                let t = choose|t: int| 0 <= t < p.len() && all[#[trigger] p[t]].1.name@ == (#[trigger] all[i]).1.name@;
                assert(q[t] == p[t]);
            } else {
                assert(q[p.len() as int] == k - 1);
            }
        }
    }
}

/// The rows of the skills gathered: the first of each name only.
fn rows_of(items: Vec<(SkillOrigin, UserSkill)>, enabled: &Vec<String>) -> (r: Vec<SkillRow>)
    ensures
        ({
            let all = items@;
            let pos = listed_positions(all, all.len() as int);
            &&& r@.len() == pos.len()
            &&& forall|k: int| 0 <= k < r@.len() ==> row_of(all[pos[k]].0, all[pos[k]].1, names_view(enabled@), #[trigger] r@[k])
        }),
{
    let ghost all = items@;
    let mut out: Vec<SkillRow> = Vec::new();
    let mut rest = items;
    let n0 = rest.len();
    let mut k: usize = 0;
    while rest.len() > 0
        invariant
            k + rest@.len() == all.len(),
            all.len() == n0,
            rest@ == all.skip(k as int),
            out@.len() == listed_positions(all, k as int).len(),
            forall|t: int| 0 <= t < out@.len() ==> row_of(
                all[listed_positions(all, k as int)[t]].0,
                all[listed_positions(all, k as int)[t]].1,
                names_view(enabled@),
                #[trigger] out@[t],
            ),
        decreases rest@.len(),
    {
        let (origin, s) = rest.remove(0);
        assert(rest@ =~= all.skip(k + 1)) by {
            assert(all.skip(k as int).drop_first() =~= all.skip(k + 1));
        }
        assert((origin, s) == all[k as int]) by {
            assert(all.skip(k as int)[0] == all[k as int]);
        }
        let ghost pos = listed_positions(all, k as int);
        proof {
            lemma_listed(all, k as int);
        }
        let mut dup = false;
        let mut t: usize = 0;
        while t < out.len()
            invariant
                t <= out@.len(),
                dup == exists|q: int| 0 <= q < t && (#[trigger] out@[q]).name@ == s.name@,
            decreases out@.len() - t,
        {
            if str_eq(out[t].name.as_str(), s.name.as_str()) {
                dup = true;
            }
            t = t + 1;
        }
        assert(dup == seen_before(all, all[k as int].1.name@, k as int)) by {
            if dup {
                let q = choose|q: int| 0 <= q < out@.len() && (#[trigger] out@[q]).name@ == s.name@;
                assert(row_of(all[pos[q]].0, all[pos[q]].1, names_view(enabled@), out@[q]));
                assert(0 <= pos[q] < k);
                assert(all[pos[q]].1.name@ == all[k as int].1.name@);
            }
            if seen_before(all, all[k as int].1.name@, k as int) {
                let j = choose|j: int| 0 <= j < k && (#[trigger] all[j]).1.name@ == all[k as int].1.name@;
                let q = choose|q: int| 0 <= q < pos.len() && all[#[trigger] pos[q]].1.name@ == (#[trigger] all[j]).1.name@;
                assert(row_of(all[pos[q]].0, all[pos[q]].1, names_view(enabled@), out@[q]));
                assert(out@[q].name@ == s.name@);
            }
        }
        if !dup {
            let row = row_for(origin, s, enabled);
            let ghost before = out@;
            out.push(row);
            proof {
                let pos2 = listed_positions(all, k + 1);
                assert(pos2 == pos.push(k as int));
                assert forall|t: int| 0 <= t < out@.len() implies row_of(
                    all[pos2[t]].0,
                    all[pos2[t]].1,
                    names_view(enabled@),
                    #[trigger] out@[t],
                ) by {
                    if t < before.len() {
                        assert(out@[t] == before[t]);
                        assert(pos2[t] == pos[t]);
                    }
                }
            }
        } else {
            proof {
                assert(listed_positions(all, k + 1) == listed_positions(all, k as int));
            }
        }
        k = k + 1;
    }
    out
}

/// The rows of all skills: the user's own, then the agent's learned ones, then those of
/// external folders, the first of each name only.
pub fn list_user_skills(
    user: Vec<UserSkill>,
    learned: Vec<UserSkill>,
    external: Vec<UserSkill>,
    enabled: &Vec<String>,
) -> (r: Vec<SkillRow>)
    ensures
        ({
            let all = all_skills(user@, learned@, external@);
            let pos = listed_positions(all, all.len() as int);
            &&& r@.len() == pos.len()
            &&& forall|k: int| 0 <= k < r@.len() ==> row_of(all[pos[k]].0, all[pos[k]].1, names_view(enabled@), #[trigger] r@[k])
        }),
{
    let items = gather(user, learned, external);
    rows_of(items, enabled)
}

/// The folders searched for external skills: the configured ones (labelled `custom:` and the
/// folder), then the discovered ones that exist and are not configured already.
pub open spec fn external_paths_spec(configured: Seq<Seq<char>>, discovered: Seq<(Seq<char>, Seq<char>, bool)>) -> Seq<(Seq<char>, Seq<char>)> {
    Seq::new(configured.len(), |i: int| (configured[i], "custom:"@ + configured[i])) + discovered.filter(
        |d: (Seq<char>, Seq<char>, bool)| d.2 && !configured.contains(d.0),
    ).map_values(|d: (Seq<char>, Seq<char>, bool)| (d.0, d.1))
}

pub open spec fn pairs_view(v: Seq<(String, String)>) -> Seq<(Seq<char>, Seq<char>)> {
    Seq::new(v.len(), |i: int| (v[i].0@, v[i].1@))
}

/// The folders, under the home folder, where other tools keep skills, in the order they are
/// searched, each with the label it is shown with.
pub open spec fn external_tool_folders() -> Seq<(Seq<char>, Seq<char>)> {
    seq![
        (".codex/skills"@, "Codex"@),
        (".openclaw/skills"@, "OpenClaw"@),
        (".pi/agent/skills"@, "Pi"@),
        (".agents/skills"@, "Agents"@),
    ]
}

/// The folders of `external_tool_folders`: (folder under the home folder, label).
pub fn external_skill_folders() -> (r: Vec<(&'static str, &'static str)>)
    ensures
        r@.len() == external_tool_folders().len(),
        forall|i: int| 0 <= i < r@.len() ==> (#[trigger] r@[i]).0@ == external_tool_folders()[i].0 && r@[i].1@
            == external_tool_folders()[i].1,
{
    let mut r: Vec<(&'static str, &'static str)> = Vec::new();
    r.push((".codex/skills", "Codex"));
    r.push((".openclaw/skills", "OpenClaw"));
    r.push((".pi/agent/skills", "Pi"));
    r.push((".agents/skills", "Agents"));
    r
}

/// A folder where another tool keeps skills, as found under the home folder.
pub struct DiscoveredExternalPath {
    pub dir_path: String,
    pub label: String,
    pub exists: bool,
}

pub open spec fn found_view(v: Seq<DiscoveredExternalPath>) -> Seq<(Seq<char>, Seq<char>, bool)> {
    Seq::new(v.len(), |i: int| (v[i].dir_path@, v[i].label@, v[i].exists))
}

fn contains_text(v: &Vec<String>, x: &str) -> (b: bool)
    ensures
        b == names_view(v@).contains(x@),
{
    let mut i: usize = 0;
    while i < v.len()
        invariant
            i <= v@.len(),
            forall|j: int| 0 <= j < i ==> names_view(v@)[j] != x@,
        decreases v@.len() - i,
    {
        if str_eq(v[i].as_str(), x) {
            assert(names_view(v@)[i as int] == x@);
            return true;
        }
        i = i + 1;
    }
    false
}

/// The folders searched for external skills (folder, label); see `external_paths_spec`.
pub fn external_skill_paths(configured: &Vec<String>, discovered: &Vec<DiscoveredExternalPath>) -> (r: Vec<(String, String)>)
    ensures
        pairs_view(r@) == external_paths_spec(names_view(configured@), found_view(discovered@)),
{
    let ghost cv = names_view(configured@);
    let ghost dv = found_view(discovered@);
    let ghost f = |d: (Seq<char>, Seq<char>, bool)| d.2 && !cv.contains(d.0);
    let mut r: Vec<(String, String)> = Vec::new();
    let mut i: usize = 0;
    while i < configured.len()
        invariant
            i <= configured@.len(),
            cv == names_view(configured@),
            pairs_view(r@) == Seq::new(i as nat, |j: int| (cv[j], "custom:"@ + cv[j])),
        decreases configured@.len() - i,
    {
        let mut label = String::from_str("custom:");
        append_str(&mut label, configured[i].as_str());
        let ghost before = pairs_view(r@);
        r.push((configured[i].clone(), label));
        assert(pairs_view(r@) =~= before.push((cv[i as int], "custom:"@ + cv[i as int])));
        assert(pairs_view(r@) =~= Seq::new((i + 1) as nat, |j: int| (cv[j], "custom:"@ + cv[j])));
        i = i + 1;
    }
    let ghost head = pairs_view(r@);
    assert(head =~= Seq::new(cv.len(), |j: int| (cv[j], "custom:"@ + cv[j])));
    let mut k: usize = 0;
    while k < discovered.len()
        invariant
            k <= discovered@.len(),
            cv == names_view(configured@),
            dv == found_view(discovered@),
            f == (|d: (Seq<char>, Seq<char>, bool)| d.2 && !cv.contains(d.0)),
            head == Seq::new(cv.len(), |j: int| (cv[j], "custom:"@ + cv[j])),
            pairs_view(r@) == head + dv.take(k as int).filter(f).map_values(|d: (Seq<char>, Seq<char>, bool)| (d.0, d.1)),
        decreases discovered@.len() - k,
    {
        proof {
            lemma_filter_step(dv, k as int, f);
        }
        let d = &discovered[k];
        assert(dv[k as int] == (d.dir_path@, d.label@, d.exists));
        let ghost before = pairs_view(r@);
        if d.exists && !contains_text(configured, d.dir_path.as_str()) {
            r.push((d.dir_path.clone(), d.label.clone()));
            assert(f(dv[k as int]));
            let ghost g = |d: (Seq<char>, Seq<char>, bool)| (d.0, d.1);
            assert(dv.take(k + 1).filter(f) == dv.take(k as int).filter(f).push(dv[k as int]));
            assert(dv.take(k + 1).filter(f).map_values(g) =~= dv.take(k as int).filter(f).map_values(g).push(g(dv[k as int])));
            assert(pairs_view(r@) =~= before.push((d.dir_path@, d.label@)));
            assert(pairs_view(r@) =~= head + dv.take(k + 1).filter(f).map_values(
                |d: (Seq<char>, Seq<char>, bool)| (d.0, d.1),
            ));
        } else {
            assert(dv.take(k + 1).filter(f) == dv.take(k as int).filter(f));
        }
        k = k + 1;
    }
    assert(dv.take(discovered@.len() as int) =~= dv);
    r
}

/// The skills switched on for an agent after switching one on or off: switching on adds it
/// at the end unless it is there; switching off removes every copy.
pub open spec fn toggled_spec(names: Seq<Seq<char>>, name: Seq<char>, enabled: bool) -> Seq<Seq<char>> {
    if enabled {
        if names.contains(name) {
            names
        } else {
            names.push(name)
        }
    } else {
        names.filter(other_than(name))
    }
}

/// The names other than `name`.
pub open spec fn other_than(name: Seq<char>) -> spec_fn(Seq<char>) -> bool {
    |n: Seq<char>| n != name
}

pub fn toggle_skill(names: Vec<String>, name: &str, enabled: bool) -> (r: Vec<String>)
    ensures
        names_view(r@) == toggled_spec(names_view(names@), name@, enabled),
{
    let ghost nv = names_view(names@);
    if enabled {
        if contains_text(&names, name) {
            return names;
        }
        let mut r = names;
        r.push(String::from_str(name));
        assert(names_view(r@) =~= nv.push(name@));
        return r;
    }
    let ghost f = other_than(name@);
    let mut r: Vec<String> = Vec::new();
    let mut i: usize = 0;
    while i < names.len()
        invariant
            i <= names@.len(),
            nv == names_view(names@),
            f == other_than(name@),
            names_view(r@) == nv.take(i as int).filter(f),
        decreases names@.len() - i,
    {
        proof {
            lemma_filter_step(nv, i as int, f);
        }
        assert(nv[i as int] == names@[i as int]@);
        if !str_eq(names[i].as_str(), name) {
            let ghost before = names_view(r@);
            r.push(names[i].clone());
            assert(names_view(r@) =~= before.push(nv[i as int]));
        }
        i = i + 1;
    }
    assert(nv.take(names@.len() as int) =~= nv);
    r
}

/// After switching a skill on or off, it is on exactly when it was switched on, and every
/// other skill is as it was.
pub proof fn law_toggle_sets_membership(names: Seq<Seq<char>>, name: Seq<char>, enabled: bool, other: Seq<char>)
    requires
        other != name,
    ensures
        toggled_spec(names, name, enabled).contains(name) == enabled,
        toggled_spec(names, name, enabled).contains(other) == names.contains(other),
{
    let f = other_than(name);
    if enabled {
        if !names.contains(name) {
            assert(names.push(name)[names.len() as int] == name);
            if names.push(name).contains(other) {
                let j = choose|j: int| 0 <= j < names.push(name).len() && names.push(name)[j] == other;
                assert(names[j] == other);
            }
            if names.contains(other) {
                let j = choose|j: int| 0 <= j < names.len() && names[j] == other;
                assert(names.push(name)[j] == other);
            }
        }
    } else {
        assert(toggled_spec(names, name, enabled) == names.filter(f));
        if names.filter(f).contains(name) {
            let j = choose|j: int| 0 <= j < names.filter(f).len() && names.filter(f)[j] == name;
            names.lemma_filter_pred(f, j);
        }
        if names.contains(other) {
            let j = choose|j: int| 0 <= j < names.len() && names[j] == other;
            names.lemma_filter_contains(f, j);
        }
        if names.filter(f).contains(other) {
            lemma_filter_member(names, f, other);
        }
    }
}

proof fn lemma_filter_member(s: Seq<Seq<char>>, f: spec_fn(Seq<char>) -> bool, x: Seq<char>)
    requires
        s.filter(f).contains(x),
    ensures
        s.contains(x),
    decreases s.len(),
{
    reveal_with_fuel(Seq::filter, 1);
    if s.len() > 0 {
        let d = s.drop_last();
        if f(s.last()) && x == s.last() {
            assert(s[s.len() - 1] == x);
        } else {
            if f(s.last()) {
                let j = choose|j: int| 0 <= j < s.filter(f).len() && s.filter(f)[j] == x;
                assert(s.filter(f) == d.filter(f).push(s.last()));
                assert(j < d.filter(f).len());
                assert(d.filter(f)[j] == x);
            }
            assert(d.filter(f).contains(x));
            lemma_filter_member(d, f, x);
            let j = choose|j: int| 0 <= j < d.len() && d[j] == x;
            assert(s[j] == x);
        }
    } else {
        assert(s.filter(f).len() == 0);
    }
}

/// The settings key of the skills switched on for an agent.
pub fn enabled_skills_key(agent_id: &str) -> (r: String)
    ensures
        r@ == "settings.agent."@ + agent_id@ + ".skills.enabled"@,
{
    let mut r = String::from_str("settings.agent.");
    append_str(&mut r, agent_id);
    append_str(&mut r, ".skills.enabled");
    r
}

/// The merged list holds each name once: no two listed skills share a name.
pub proof fn law_listed_names_distinct(all: Seq<(SkillOrigin, UserSkill)>, k: int)
    requires
        0 <= k <= all.len(),
    ensures
        forall|a: int, b: int|
            0 <= a < b < listed_positions(all, k).len() ==> all[#[trigger] listed_positions(all, k)[a]].1.name@
                != all[#[trigger] listed_positions(all, k)[b]].1.name@,
    decreases k,
{
    if k > 0 {
        law_listed_names_distinct(all, k - 1);
        lemma_listed(all, k - 1);
        let p = listed_positions(all, k - 1);
        let q = listed_positions(all, k);
        if !seen_before(all, all[k - 1].1.name@, k - 1) {
            assert forall|a: int, b: int| 0 <= a < b < q.len() implies all[#[trigger] q[a]].1.name@ != all[#[trigger] q[b]].1.name@ by {
                if b == q.len() - 1 {
                    assert(q[b] == k - 1);
                    assert(q[a] == p[a]);
                    assert(0 <= p[a] < k - 1);
                    if all[p[a]].1.name@ == all[k - 1].1.name@ {
                        assert(seen_before(all, all[k - 1].1.name@, k - 1));
                    }
                } else {
                    assert(q[a] == p[a] && q[b] == p[b]);
                }
            }
        }
    }
}

} // verus!
