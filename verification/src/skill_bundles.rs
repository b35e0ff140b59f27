//! Skill bundles: named lists of skills with a per-agent on/off switch. The bundles live in a
//! `BundleStore`, which the caller reads from and writes back to `skill-bundles.json`.

use rand::Rng;
use vstd::prelude::*;

use crate::clock::now_rfc3339;
use crate::render_text::byte_len;
use crate::text::{
    alphanumeric, append_str, chars_of, is_alphanumeric, lower_hex, lower_hex_padded, lowercase, push_char, string_of,
    str_eq, take_chars, take_chars_spec, to_lowercase, trim_char, trim_char_spec, zero_pad,
};

verus! {

/// The version written into every store.
pub const SCHEMA_VERSION: u32 = 1;

/// The schema version of a store read without one.
pub fn default_schema_version() -> (v: u32)
    ensures
        v == SCHEMA_VERSION,
{
    SCHEMA_VERSION
}

/// A named list of skills.
pub struct SkillBundle {
    pub id: String,
    pub name: String,
    pub skill_names: Vec<String>,
    pub source: String,
    pub agent_id: Option<String>,
    pub source_package: Option<String>,
    pub created_at: String,
    pub updated_at: String,
    /// Per-agent enabled state as (agent id, enabled) pairs; the first pair of an agent counts.
    pub enabled: Vec<(String, bool)>,
}

/// A bundle as plain text values.
pub struct BundleView {
    pub id: Seq<char>,
    pub name: Seq<char>,
    pub skill_names: Seq<Seq<char>>,
    pub source: Seq<char>,
    pub agent_id: Option<Seq<char>>,
    pub source_package: Option<Seq<char>>,
    pub created_at: Seq<char>,
    pub updated_at: Seq<char>,
    pub enabled: Seq<(Seq<char>, bool)>,
}

pub open spec fn opt_view(o: Option<String>) -> Option<Seq<char>> {
    match o {
        Some(s) => Some(s@),
        None => None,
    }
}

pub open spec fn strings_view(v: Seq<String>) -> Seq<Seq<char>> {
    Seq::new(v.len(), |i: int| v[i]@)
}

pub open spec fn pairs_view(v: Seq<(String, bool)>) -> Seq<(Seq<char>, bool)> {
    Seq::new(v.len(), |i: int| (v[i].0@, v[i].1))
}

impl View for SkillBundle {
    type V = BundleView;

    open spec fn view(&self) -> BundleView {
        BundleView {
            id: self.id@,
            name: self.name@,
            skill_names: strings_view(self.skill_names@),
            source: self.source@,
            agent_id: opt_view(self.agent_id),
            source_package: opt_view(self.source_package),
            created_at: self.created_at@,
            updated_at: self.updated_at@,
            enabled: pairs_view(self.enabled@),
        }
    }
}

/// All bundles, in their stored order.
pub struct BundleStore {
    pub schema_version: u32,
    pub bundles: Vec<SkillBundle>,
}

pub open spec fn bundles_view(bs: Seq<SkillBundle>) -> Seq<BundleView> {
    Seq::new(bs.len(), |i: int| bs[i]@)
}

impl View for BundleStore {
    type V = Seq<BundleView>;

    open spec fn view(&self) -> Seq<BundleView> {
        bundles_view(self.bundles@)
    }
}

/// Why a change to the store was refused.
#[derive(Debug, Clone, Copy, PartialEq, Eq, Structural)]
pub enum BundleError {
    /// No bundle has the given id.
    NotFound,
    /// The new order does not name as many ids as there are bundles.
    OrderLengthMismatch,
    /// The new order names an id that is not a bundle's, or names one twice.
    UnknownId,
    /// None of the bundle's skills could be found on disk.
    NothingToExport,
}

/// The message an error is reported with.
pub open spec fn bundle_error_message(e: BundleError) -> Seq<char> {
    match e {
        BundleError::NotFound => "bundle not found"@,
        BundleError::OrderLengthMismatch => "bundle_ids must include every bundle exactly once"@,
        BundleError::UnknownId => "unknown bundle id"@,
        BundleError::NothingToExport => "bundle has no exportable skills"@,
    }
}

impl BundleError {
    /// The message the error is reported with.
    pub fn message(&self) -> (s: &'static str)
        ensures
            s@ == bundle_error_message(*self),
    {
        match self {
            BundleError::NotFound => "bundle not found",
            BundleError::OrderLengthMismatch => "bundle_ids must include every bundle exactly once",
            BundleError::UnknownId => "unknown bundle id",
            BundleError::NothingToExport => "bundle has no exportable skills",
        }
    }
}

pub fn clone_strings(v: &Vec<String>) -> (r: Vec<String>)
    ensures
        r@ == v@,
{
    let mut r: Vec<String> = Vec::new();
    let mut i: usize = 0;
    while i < v.len()
        invariant
            i <= v.len(),
            r@ == v@.take(i as int),
        decreases v.len() - i,
    {
        r.push(v[i].clone());
        assert(v@.take(i + 1) =~= v@.take(i as int).push(v@[i as int]));
        i = i + 1;
    }
    assert(v@.take(v.len() as int) =~= v@);
    r
}

fn clone_pairs(v: &Vec<(String, bool)>) -> (r: Vec<(String, bool)>)
    ensures
        r@ == v@,
{
    let mut r: Vec<(String, bool)> = Vec::new();
    let mut i: usize = 0;
    while i < v.len()
        invariant
            i <= v.len(),
            r@ == v@.take(i as int),
        decreases v.len() - i,
    {
        let p = (v[i].0.clone(), v[i].1);
        r.push(p);
        assert(v@.take(i + 1) =~= v@.take(i as int).push(v@[i as int]));
        i = i + 1;
    }
    assert(v@.take(v.len() as int) =~= v@);
    r
}

fn clone_opt_string(o: &Option<String>) -> (r: Option<String>)
    ensures
        r == *o,
{
    match o {
        Some(s) => Some(s.clone()),
        None => None,
    }
}

/// A copy of `b`.
pub fn copy_bundle(b: &SkillBundle) -> (r: SkillBundle)
    ensures
        r@ == b@,
{
    SkillBundle {
        id: b.id.clone(),
        name: b.name.clone(),
        skill_names: clone_strings(&b.skill_names),
        source: b.source.clone(),
        agent_id: clone_opt_string(&b.agent_id),
        source_package: clone_opt_string(&b.source_package),
        created_at: b.created_at.clone(),
        updated_at: b.updated_at.clone(),
        enabled: clone_pairs(&b.enabled),
    }
}

// ── names ──

/// The character a slug keeps in place of `c`.
pub open spec fn slug_char(c: char) -> char {
    if alphanumeric(c) || c == '-' {
        c
    } else {
        '-'
    }
}

pub open spec fn slug_chars(s: Seq<char>) -> Seq<char> {
    Seq::new(s.len(), |i: int| slug_char(s[i]))
}

/// The lowercased value with every character that is neither alphanumeric nor `-` made a `-`,
/// without `-` at either end, cut to 56 characters when it is longer than 56 bytes.
pub open spec fn slugify_spec(value: Seq<char>) -> Seq<char> {
    let trimmed = trim_char_spec(slug_chars(lowercase(value)), '-');
    if byte_len(trimmed) > 56 {
        take_chars_spec(trimmed, 56)
    } else {
        trimmed
    }
}

pub fn slugify(value: &str) -> (r: String)
    ensures
        r@ == slugify_spec(value@),
{
    let lower = to_lowercase(value);
    let cs = chars_of(lower.as_str());
    let mut mapped: Vec<char> = Vec::new();
    let mut i: usize = 0;
    while i < cs.len()
        invariant
            i <= cs.len(),
            mapped@ =~= slug_chars(cs@.take(i as int)),
        decreases cs.len() - i,
    {
        let c = cs[i];
        let m = if is_alphanumeric(c) || c == '-' {
            c
        } else {
            '-'
        };
        mapped.push(m);
        assert(slug_chars(cs@.take(i + 1)) =~= slug_chars(cs@.take(i as int)).push(m));
        i = i + 1;
    }
    assert(cs@.take(cs.len() as int) =~= cs@);
    let trimmed = trim_char(&mapped, '-');
    let ts = string_of(&trimmed);
    if ts.as_str().len() > 56 {
        take_chars(ts.as_str(), 56)
    } else {
        ts
    }
}

/// The character a file name keeps in place of `c`.
pub open spec fn safe_char(c: char) -> char {
    if alphanumeric(c) || c == '-' || c == '_' {
        c
    } else {
        '_'
    }
}

/// `name` with every character that is neither alphanumeric, `-` nor `_` made a `_`.
pub open spec fn sanitize_spec(name: Seq<char>) -> Seq<char> {
    Seq::new(name.len(), |i: int| safe_char(name[i]))
}

pub fn sanitize_name(name: &str) -> (r: String)
    ensures
        r@ == sanitize_spec(name@),
{
    let cs = chars_of(name);
    let mut r = String::new();
    let mut i: usize = 0;
    while i < cs.len()
        invariant
            i <= cs.len(),
            r@ =~= sanitize_spec(cs@.take(i as int)),
        decreases cs.len() - i,
    {
        let c = cs[i];
        let m = if is_alphanumeric(c) || c == '-' || c == '_' {
            c
        } else {
            '_'
        };
        push_char(&mut r, m);
        assert(sanitize_spec(cs@.take(i + 1)) =~= sanitize_spec(cs@.take(i as int)).push(m));
        i = i + 1;
    }
    assert(cs@.take(cs.len() as int) =~= cs@);
    r
}

/// Calls `rand::rng()` and `Rng::random::<u32>()`. The value is random; nothing is stated of it.
#[verifier::external_body]
fn random_u32() -> (r: u32) {
    rand::rng().random::<u32>()
}

/// Six or more lowercase hex digits of `n`, as `format!("{:06x}", n)` writes them.
pub open spec fn suffix_spec(n: u32) -> Seq<char> {
    zero_pad(lower_hex(n as nat), 6)
}

/// A random id suffix.
pub fn random_suffix() -> (r: String)
    ensures
        exists|n: u32| r@ == suffix_spec(n),
{
    let n = random_u32();
    let r = lower_hex_padded(n, 6);
    assert(r@ == suffix_spec(n));
    r
}

/// The id of a bundle named `name` made with the suffix number `n`.
pub open spec fn bundle_id_spec(name: Seq<char>, n: u32) -> Seq<char> {
    slugify_spec(name) + "-"@ + suffix_spec(n)
}

// ── lookups ──

/// The first position at or after `k` of a bundle with the id `id`.
pub open spec fn bundle_pos_from(bs: Seq<BundleView>, id: Seq<char>, k: int) -> Option<int>
    decreases bs.len() - k,
{
    if k < 0 || k >= bs.len() {
        None
    } else if bs[k].id == id {
        Some(k)
    } else {
        bundle_pos_from(bs, id, k + 1)
    }
}

/// The position of the first bundle with the id `id`.
pub open spec fn bundle_pos(bs: Seq<BundleView>, id: Seq<char>) -> Option<int> {
    bundle_pos_from(bs, id, 0)
}

pub proof fn lemma_bundle_pos_from(bs: Seq<BundleView>, id: Seq<char>, k: int)
    requires
        0 <= k,
    ensures
        bundle_pos_from(bs, id, k) matches Some(i) ==> k <= i < bs.len() && bs[i].id == id && forall|j: int|
            k <= j < i ==> #[trigger] bs[j].id != id,
        bundle_pos_from(bs, id, k) is None ==> forall|j: int| k <= j < bs.len() ==> #[trigger] bs[j].id != id,
    decreases bs.len() - k,
{
    if k < bs.len() && bs[k].id != id {
        lemma_bundle_pos_from(bs, id, k + 1);
    }
}

/// Two bundle lists with the same ids at the same places find an id at the same place.
pub proof fn lemma_bundle_pos_same_ids(a: Seq<BundleView>, b: Seq<BundleView>, id: Seq<char>, k: int)
    requires
        a.len() == b.len(),
        forall|j: int| 0 <= j < a.len() ==> #[trigger] a[j].id == b[j].id,
    ensures
        bundle_pos_from(a, id, k) == bundle_pos_from(b, id, k),
    decreases a.len() - k,
{
    if 0 <= k < a.len() && a[k].id != id {
        lemma_bundle_pos_same_ids(a, b, id, k + 1);
    }
}

/// The position of the first bundle of `bs` with the id `id`.
pub fn find_bundle(bs: &Vec<SkillBundle>, id: &str) -> (r: Option<usize>)
    ensures
        r matches Some(i) ==> bundle_pos(bundles_view(bs@), id@) == Some(i as int),
        r is None ==> bundle_pos(bundles_view(bs@), id@) is None,
{
    let ghost v = bundles_view(bs@);
    let mut i: usize = 0;
    while i < bs.len()
        invariant
            i <= bs.len(),
            v == bundles_view(bs@),
            bundle_pos_from(v, id@, 0) == bundle_pos_from(v, id@, i as int),
        decreases bs.len() - i,
    {
        if str_eq(bs[i].id.as_str(), id) {
            return Some(i);
        }
        i = i + 1;
    }
    None
}

/// The first position at or after `k` of a pair for `agent`.
pub open spec fn agent_pos_from(ps: Seq<(Seq<char>, bool)>, agent: Seq<char>, k: int) -> Option<int>
    decreases ps.len() - k,
{
    if k < 0 || k >= ps.len() {
        None
    } else if ps[k].0 == agent {
        Some(k)
    } else {
        agent_pos_from(ps, agent, k + 1)
    }
}

/// The enabled state recorded for `agent`, if there is one.
pub open spec fn enabled_lookup(ps: Seq<(Seq<char>, bool)>, agent: Seq<char>) -> Option<bool> {
    match agent_pos_from(ps, agent, 0) {
        Some(i) => Some(ps[i].1),
        None => None,
    }
}

/// The pairs after recording `v` for `agent`: the agent's pair is changed, or one is added.
pub open spec fn enabled_insert(ps: Seq<(Seq<char>, bool)>, agent: Seq<char>, v: bool) -> Seq<(Seq<char>, bool)> {
    match agent_pos_from(ps, agent, 0) {
        Some(i) => ps.update(i, (agent, v)),
        None => ps.push((agent, v)),
    }
}

pub proof fn lemma_agent_pos_from(ps: Seq<(Seq<char>, bool)>, agent: Seq<char>, k: int)
    requires
        0 <= k,
    ensures
        agent_pos_from(ps, agent, k) matches Some(i) ==> k <= i < ps.len() && ps[i].0 == agent && forall|j: int|
            k <= j < i ==> #[trigger] ps[j].0 != agent,
        agent_pos_from(ps, agent, k) is None ==> forall|j: int| k <= j < ps.len() ==> #[trigger] ps[j].0 != agent,
    decreases ps.len() - k,
{
    if k < ps.len() && ps[k].0 != agent {
        lemma_agent_pos_from(ps, agent, k + 1);
    }
}

proof fn lemma_agent_pos_same_keys(a: Seq<(Seq<char>, bool)>, b: Seq<(Seq<char>, bool)>, agent: Seq<char>, k: int)
    requires
        a.len() == b.len(),
        forall|j: int| 0 <= j < a.len() ==> #[trigger] a[j].0 == b[j].0,
    ensures
        agent_pos_from(a, agent, k) == agent_pos_from(b, agent, k),
    decreases a.len() - k,
{
    if 0 <= k < a.len() && a[k].0 != agent {
        lemma_agent_pos_same_keys(a, b, agent, k + 1);
    }
}

proof fn lemma_agent_pos_push(ps: Seq<(Seq<char>, bool)>, p: (Seq<char>, bool), agent: Seq<char>, k: int)
    requires
        0 <= k,
        agent_pos_from(ps, agent, k) is Some,
    ensures
        agent_pos_from(ps.push(p), agent, k) == agent_pos_from(ps, agent, k),
    decreases ps.len() - k,
{
    if k < ps.len() {
        assert(ps.push(p)[k] == ps[k]);
    }
    if k < ps.len() && ps[k].0 != agent {
        lemma_agent_pos_push(ps, p, agent, k + 1);
    }
}

proof fn lemma_agent_pos_push_absent(ps: Seq<(Seq<char>, bool)>, p: (Seq<char>, bool), agent: Seq<char>, k: int)
    requires
        0 <= k <= ps.len(),
        agent_pos_from(ps, agent, k) is None,
    ensures
        agent_pos_from(ps.push(p), agent, k) == (if p.0 == agent { Some(ps.len() as int) } else { None::<int> }),
    decreases ps.len() - k,
{
    let q = ps.push(p);
    if k < ps.len() {
        assert(q[k] == ps[k]);
        lemma_agent_pos_push_absent(ps, p, agent, k + 1);
    } else {
        assert(q[k] == p);
        assert(agent_pos_from(q, agent, k + 1) is None);
    }
}

/// Recording a value for an agent is read back for that agent, and changes no other agent.
pub proof fn law_enabled_insert_lookup(ps: Seq<(Seq<char>, bool)>, agent: Seq<char>, v: bool, other: Seq<char>)
    ensures
        enabled_lookup(enabled_insert(ps, agent, v), agent) == Some(v),
        other != agent ==> enabled_lookup(enabled_insert(ps, agent, v), other) == enabled_lookup(ps, other),
{
    lemma_agent_pos_from(ps, agent, 0);
    match agent_pos_from(ps, agent, 0) {
        Some(i) => {
            let q = ps.update(i, (agent, v));
            lemma_agent_pos_same_keys(ps, q, agent, 0);
            lemma_agent_pos_same_keys(ps, q, other, 0);
            lemma_agent_pos_from(ps, other, 0);
        },
        None => {
            lemma_agent_pos_push_absent(ps, (agent, v), agent, 0);
            lemma_agent_pos_from(ps, other, 0);
            if agent_pos_from(ps, other, 0) is Some {
                lemma_agent_pos_push(ps, (agent, v), other, 0);
            } else {
                lemma_agent_pos_push_absent(ps, (agent, v), other, 0);
            }
        },
    }
}

// ── the store's operations ──

/// All bundles of the store, in order.
pub fn list_bundles(store: BundleStore) -> (r: Vec<SkillBundle>)
    ensures
        bundles_view(r@) == store@,
{
    store.bundles
}

/// The bundle that `create_bundle` makes from a name, its skills, a suffix number and the time.
pub open spec fn new_bundle_view(name: Seq<char>, skill_names: Seq<Seq<char>>, n: u32, now: Seq<char>) -> BundleView {
    BundleView {
        id: bundle_id_spec(name, n),
        name: name,
        skill_names: skill_names,
        source: "user"@,
        agent_id: None,
        source_package: None,
        created_at: now,
        updated_at: now,
        enabled: Seq::empty(),
    }
}

/// Adds a new bundle whose id is made with the suffix number `n`, stamped with the time `now`.
pub fn create_bundle_with(store: &mut BundleStore, name: &str, skill_names: Vec<String>, n: u32, now: &str) -> (b: SkillBundle)
    ensures
        b@ == new_bundle_view(name@, strings_view(skill_names@), n, now@),
        final(store)@ == old(store)@.push(b@),
        final(store).schema_version == old(store).schema_version,
{
    let mut id = slugify(name);
    append_str(&mut id, "-");
    let suffix = lower_hex_padded(n, 6);
    append_str(&mut id, suffix.as_str());
    proof { reveal_strlit("-"); reveal_strlit("user"); }
    let b = SkillBundle {
        id: id,
        name: String::from_str(name),
        skill_names: skill_names,
        source: String::from_str("user"),
        agent_id: None,
        source_package: None,
        created_at: String::from_str(now),
        updated_at: String::from_str(now),
        enabled: Vec::new(),
    };
    assert(b@.enabled =~= Seq::<(Seq<char>, bool)>::empty());
    assert(b@ == new_bundle_view(name@, strings_view(skill_names@), n, now@));
    let ghost before = store.bundles@;
    store.bundles.push(copy_bundle(&b));
    assert(bundles_view(store.bundles@) =~= bundles_view(before).push(b@));
    b
}

/// Adds a new bundle named `name` holding `skill_names`, with a random id suffix and the
/// current time as its creation and update time.
pub fn create_bundle(store: &mut BundleStore, name: &str, skill_names: Vec<String>) -> (b: SkillBundle)
    ensures
        exists|n: u32, now: Seq<char>| b@ == new_bundle_view(name@, strings_view(skill_names@), n, now),
        final(store)@ == old(store)@.push(b@),
        final(store).schema_version == old(store).schema_version,
{
    let n = random_u32();
    let now = now_rfc3339();
    let b = create_bundle_with(store, name, skill_names, n, now.as_str());
    assert(b@ == new_bundle_view(name@, strings_view(skill_names@), n, now@));
    b
}

pub open spec fn opt_str_view(o: Option<&str>) -> Option<Seq<char>> {
    match o {
        Some(s) => Some(s@),
        None => None,
    }
}

pub open spec fn opt_strings_view(o: Option<Vec<String>>) -> Option<Seq<Seq<char>>> {
    match o {
        Some(v) => Some(strings_view(v@)),
        None => None,
    }
}

/// `b` with a new name and skill list where they are given, updated at `now`.
pub open spec fn updated_view(b: BundleView, name: Option<Seq<char>>, skill_names: Option<Seq<Seq<char>>>, now: Seq<char>) -> BundleView {
    BundleView {
        id: b.id,
        name: match name {
            Some(n) => n,
            None => b.name,
        },
        skill_names: match skill_names {
            Some(sn) => sn,
            None => b.skill_names,
        },
        source: b.source,
        agent_id: b.agent_id,
        source_package: b.source_package,
        created_at: b.created_at,
        updated_at: now,
        enabled: b.enabled,
    }
}

/// Renames and refills the first bundle with the id `id`, stamped with the time `now`.
pub fn update_bundle_with(
    store: &mut BundleStore,
    id: &str,
    name: Option<&str>,
    skill_names: Option<Vec<String>>,
    now: &str,
) -> (r: Result<SkillBundle, BundleError>)
    ensures
        final(store).schema_version == old(store).schema_version,
        match bundle_pos(old(store)@, id@) {
            None => r == Err::<SkillBundle, BundleError>(BundleError::NotFound) && final(store)@ == old(store)@,
            Some(i) => r matches Ok(b) && b@ == updated_view(old(store)@[i], opt_str_view(name), opt_strings_view(skill_names), now@)
                && final(store)@ == old(store)@.update(i, b@),
        },
{
    let idx = match find_bundle(&store.bundles, id) {
        Some(i) => i,
        None => return Err(BundleError::NotFound),
    };
    proof { lemma_bundle_pos_from(store@, id@, 0); }
    let mut b = copy_bundle(&store.bundles[idx]);
    match name {
        Some(n) => {
            b.name = String::from_str(n);
        },
        None => {},
    }
    match skill_names {
        Some(sn) => {
            b.skill_names = sn;
        },
        None => {},
    }
    b.updated_at = String::from_str(now);
    let ghost before = store.bundles@;
    store.bundles.set(idx, copy_bundle(&b));
    assert(bundles_view(store.bundles@) =~= bundles_view(before).update(idx as int, b@));
    Ok(b)
}

/// Renames and refills the first bundle with the id `id`, stamped with the current time.
pub fn update_bundle(store: &mut BundleStore, id: &str, name: Option<&str>, skill_names: Option<Vec<String>>) -> (r: Result<
    SkillBundle,
    BundleError,
>)
    ensures
        final(store).schema_version == old(store).schema_version,
        match bundle_pos(old(store)@, id@) {
            None => r == Err::<SkillBundle, BundleError>(BundleError::NotFound) && final(store)@ == old(store)@,
            Some(i) => r matches Ok(b) && (exists|now: Seq<char>| b@ == updated_view(old(store)@[i], opt_str_view(name), opt_strings_view(skill_names), now))
                && final(store)@ == old(store)@.update(i, b@),
        },
{
    let now = now_rfc3339();
    let r = update_bundle_with(store, id, name, skill_names, now.as_str());
    match &r {
        Ok(b) => {
            assert(b@ == updated_view(old(store)@[bundle_pos(old(store)@, id@)->0], opt_str_view(name), opt_strings_view(skill_names), now@));
        },
        Err(_) => {},
    }
    r
}

/// The bundles other than those with the id `id`, in order.
pub open spec fn remove_id(bs: Seq<BundleView>, id: Seq<char>) -> Seq<BundleView>
    decreases bs.len(),
{
    if bs.len() == 0 {
        bs
    } else if bs.last().id == id {
        remove_id(bs.drop_last(), id)
    } else {
        remove_id(bs.drop_last(), id).push(bs.last())
    }
}

/// Removes every bundle with the id `id`; says whether there was one.
pub fn delete_bundle(store: &mut BundleStore, id: &str) -> (removed: bool)
    ensures
        final(store)@ == remove_id(old(store)@, id@),
        removed == (bundle_pos(old(store)@, id@) is Some),
        final(store).schema_version == old(store).schema_version,
{
    let ghost v = store@;
    let mut kept: Vec<SkillBundle> = Vec::new();
    let mut found = false;
    let mut i: usize = 0;
    while i < store.bundles.len()
        invariant
            i <= store.bundles.len(),
            v == store@,
            bundles_view(kept@) == remove_id(v.take(i as int), id@),
            found == (exists|j: int| 0 <= j < i && #[trigger] v[j].id == id@),
        decreases store.bundles.len() - i,
    {
        assert(v.take(i + 1).drop_last() =~= v.take(i as int));
        assert(v.take(i + 1).last() == v[i as int]);
        assert(v[i as int].id == store.bundles@[i as int].id@);
        if str_eq(store.bundles[i].id.as_str(), id) {
            found = true;
        } else {
            let ghost before = kept@;
            kept.push(copy_bundle(&store.bundles[i]));
            assert(bundles_view(kept@) =~= bundles_view(before).push(v[i as int]));
        }
        i = i + 1;
    }
    assert(v.take(v.len() as int) =~= v);
    proof {
        lemma_bundle_pos_from(v, id@, 0);
        if found {
            let j = choose|j: int| 0 <= j < v.len() && #[trigger] v[j].id == id@;
            assert(v[j].id == id@);
        }
    }
    store.bundles = kept;
    found
}

/// The bundles after recording `enabled` for `agent` in the bundle at `i`, updated at `now`.
pub open spec fn with_enabled(b: BundleView, agent: Seq<char>, enabled: bool, now: Seq<char>) -> BundleView {
    BundleView {
        id: b.id,
        name: b.name,
        skill_names: b.skill_names,
        source: b.source,
        agent_id: b.agent_id,
        source_package: b.source_package,
        created_at: b.created_at,
        updated_at: now,
        enabled: enabled_insert(b.enabled, agent, enabled),
    }
}

/// The bundles after `set_bundle_enabled` for a bundle that exists.
pub open spec fn set_enabled_spec(bs: Seq<BundleView>, id: Seq<char>, agent: Seq<char>, enabled: bool, now: Seq<char>) -> Seq<BundleView> {
    match bundle_pos(bs, id) {
        Some(i) => bs.update(i, with_enabled(bs[i], agent, enabled, now)),
        None => bs,
    }
}

fn insert_pair(ps: &mut Vec<(String, bool)>, agent: &str, v: bool)
    ensures
        pairs_view(final(ps)@) == enabled_insert(pairs_view(old(ps)@), agent@, v),
{
    let ghost pv = pairs_view(ps@);
    let mut i: usize = 0;
    while i < ps.len()
        invariant
            i <= ps.len(),
            pv == pairs_view(ps@),
            ps@ == old(ps)@,
            agent_pos_from(pv, agent@, 0) == agent_pos_from(pv, agent@, i as int),
        decreases ps.len() - i,
    {
        assert(pv[i as int].0 == ps@[i as int].0@);
        if str_eq(ps[i].0.as_str(), agent) {
            assert(agent_pos_from(pv, agent@, i as int) == Some(i as int));
            let ghost before = ps@;
            ps.set(i, (String::from_str(agent), v));
            assert(pairs_view(ps@) =~= pv.update(i as int, (agent@, v)));
            return;
        }
        i = i + 1;
    }
    let ghost before = ps@;
    ps.push((String::from_str(agent), v));
    assert(pairs_view(ps@) =~= pv.push((agent@, v)));
}

/// Records `enabled` for `agent_id` in the first bundle with the id `id`, stamped with `now`.
pub fn set_bundle_enabled_with(store: &mut BundleStore, id: &str, agent_id: &str, enabled: bool, now: &str) -> (r: Result<(), BundleError>)
    ensures
        final(store).schema_version == old(store).schema_version,
        final(store)@ == set_enabled_spec(old(store)@, id@, agent_id@, enabled, now@),
        r is Ok <==> bundle_pos(old(store)@, id@) is Some,
        r is Err ==> r == Err::<(), BundleError>(BundleError::NotFound),
{
    let idx = match find_bundle(&store.bundles, id) {
        Some(i) => i,
        None => return Err(BundleError::NotFound),
    };
    proof { lemma_bundle_pos_from(store@, id@, 0); }
    let mut b = copy_bundle(&store.bundles[idx]);
    insert_pair(&mut b.enabled, agent_id, enabled);
    b.updated_at = String::from_str(now);
    let ghost before = store.bundles@;
    store.bundles.set(idx, b);
    assert(bundles_view(store.bundles@) =~= bundles_view(before).update(idx as int, with_enabled(bundles_view(before)[idx as int], agent_id@, enabled, now@)));
    Ok(())
}

/// Records `enabled` for `agent_id` in the first bundle with the id `id`, stamped with the
/// current time.
pub fn set_bundle_enabled(store: &mut BundleStore, id: &str, agent_id: &str, enabled: bool) -> (r: Result<(), BundleError>)
    ensures
        final(store).schema_version == old(store).schema_version,
        exists|now: Seq<char>| final(store)@ == set_enabled_spec(old(store)@, id@, agent_id@, enabled, now),
        r is Ok <==> bundle_pos(old(store)@, id@) is Some,
        r is Err ==> r == Err::<(), BundleError>(BundleError::NotFound),
{
    let now = now_rfc3339();
    set_bundle_enabled_with(store, id, agent_id, enabled, now.as_str())
}

/// Whether the first bundle with the id `id` is on for `agent`; off when either is unknown.
pub open spec fn get_enabled_spec(bs: Seq<BundleView>, id: Seq<char>, agent: Seq<char>) -> bool {
    match bundle_pos(bs, id) {
        Some(i) => match enabled_lookup(bs[i].enabled, agent) {
            Some(v) => v,
            None => false,
        },
        None => false,
    }
}

pub fn get_bundle_enabled(store: &BundleStore, id: &str, agent_id: &str) -> (r: bool)
    ensures
        r == get_enabled_spec(store@, id@, agent_id@),
{
    let idx = match find_bundle(&store.bundles, id) {
        Some(i) => i,
        None => return false,
    };
    proof { lemma_bundle_pos_from(store@, id@, 0); }
    let ps = &store.bundles[idx].enabled;
    let ghost pv = pairs_view(ps@);
    assert(pv == store@[idx as int].enabled);
    let mut i: usize = 0;
    while i < ps.len()
        invariant
            i <= ps.len(),
            pv == pairs_view(ps@),
            pv == store@[idx as int].enabled,
            bundle_pos(store@, id@) == Some(idx as int),
            agent_pos_from(pv, agent_id@, 0) == agent_pos_from(pv, agent_id@, i as int),
        decreases ps.len() - i,
    {
        assert(pv[i as int] == (ps@[i as int].0@, ps@[i as int].1));
        if str_eq(ps[i].0.as_str(), agent_id) {
            assert(agent_pos_from(pv, agent_id@, i as int) == Some(i as int));
            return ps[i].1;
        }
        i = i + 1;
    }
    false
}

/// What `set_bundle_enabled` records is what `get_bundle_enabled` reads back, for that bundle
/// and agent; for every other bundle or agent the answer is unchanged.
pub proof fn law_enabled_read_after_write(
    bs: Seq<BundleView>,
    id: Seq<char>,
    agent: Seq<char>,
    enabled: bool,
    now: Seq<char>,
    id2: Seq<char>,
    agent2: Seq<char>,
)
    requires
        bundle_pos(bs, id) is Some,
    ensures
        get_enabled_spec(set_enabled_spec(bs, id, agent, enabled, now), id2, agent2) == (if id2 == id && agent2 == agent {
            enabled
        } else {
            get_enabled_spec(bs, id2, agent2)
        }),
{
    let i = bundle_pos(bs, id)->0;
    lemma_bundle_pos_from(bs, id, 0);
    let bs2 = set_enabled_spec(bs, id, agent, enabled, now);
    assert forall|j: int| 0 <= j < bs.len() implies #[trigger] bs[j].id == bs2[j].id by {}
    lemma_bundle_pos_same_ids(bs, bs2, id2, 0);
    lemma_bundle_pos_from(bs, id2, 0);
    law_enabled_insert_lookup(bs[i].enabled, agent, enabled, agent2);
}

/// Deleting a bundle leaves none with its id; deleting an id no bundle has changes nothing.
pub proof fn law_delete_removes(bs: Seq<BundleView>, id: Seq<char>)
    ensures
        bundle_pos(remove_id(bs, id), id) is None,
        bundle_pos(bs, id) is None ==> remove_id(bs, id) == bs,
    decreases bs.len(),
{
    if bs.len() > 0 {
        law_delete_removes(bs.drop_last(), id);
        lemma_bundle_pos_from(remove_id(bs.drop_last(), id), id, 0);
        let r = remove_id(bs, id);
        lemma_bundle_pos_from(r, id, 0);
        if bs.last().id != id {
            let r0 = remove_id(bs.drop_last(), id);
            assert forall|j: int| 0 <= j < r.len() implies #[trigger] r[j].id != id by {
                if j < r0.len() {
                    assert(r[j] == r0[j]);
                }
            }
        }
        lemma_bundle_pos_from(bs, id, 0);
        lemma_bundle_pos_from(bs.drop_last(), id, 0);
        if bundle_pos(bs, id) is None {
            assert(bs.last() == bs[bs.len() - 1]);
            assert forall|j: int| 0 <= j < bs.drop_last().len() implies #[trigger] bs.drop_last()[j].id != id by {
                assert(bs.drop_last()[j] == bs[j]);
            }
            assert(bs.drop_last().push(bs.last()) =~= bs);
        }
    }
}

// ── reordering ──

/// The last position at or before `k` of a bundle with the id `id`.
pub open spec fn last_pos_from(bs: Seq<BundleView>, id: Seq<char>, k: int) -> Option<int>
    decreases k + 1,
{
    if k < 0 || k >= bs.len() {
        None
    } else if bs[k].id == id {
        Some(k)
    } else {
        last_pos_from(bs, id, k - 1)
    }
}

/// The position of the last bundle with the id `id`: the one a map keyed by id keeps.
pub open spec fn last_pos(bs: Seq<BundleView>, id: Seq<char>) -> Option<int> {
    last_pos_from(bs, id, bs.len() - 1)
}

pub proof fn lemma_last_pos_from(bs: Seq<BundleView>, id: Seq<char>, k: int)
    requires
        k < bs.len(),
    ensures
        last_pos_from(bs, id, k) matches Some(i) ==> 0 <= i <= k && bs[i].id == id,
        last_pos_from(bs, id, k) is None ==> forall|j: int| 0 <= j <= k ==> #[trigger] bs[j].id != id,
    decreases k + 1,
{
    if k >= 0 && bs[k].id != id {
        lemma_last_pos_from(bs, id, k - 1);
    }
}

/// Whether `ids[i]` already occurs before position `i`.
pub open spec fn repeated_before(ids: Seq<Seq<char>>, i: int) -> bool {
    exists|j: int| 0 <= j < i && ids[j] == ids[i]
}

/// Whether `ids` names every bundle's id exactly once: as many ids as bundles, each one a
/// bundle's and none twice.
pub open spec fn order_ok(bs: Seq<BundleView>, ids: Seq<Seq<char>>) -> bool {
    &&& ids.len() == bs.len()
    &&& forall|i: int| 0 <= i < ids.len() ==> (#[trigger] last_pos(bs, ids[i])) is Some && !repeated_before(ids, i)
}

/// `b` updated at `now`.
pub open spec fn touched(b: BundleView, now: Seq<char>) -> BundleView {
    BundleView {
        id: b.id,
        name: b.name,
        skill_names: b.skill_names,
        source: b.source,
        agent_id: b.agent_id,
        source_package: b.source_package,
        created_at: b.created_at,
        updated_at: now,
        enabled: b.enabled,
    }
}

/// The bundles in the order `ids` gives, each updated at `now`.
pub open spec fn reordered(bs: Seq<BundleView>, ids: Seq<Seq<char>>, now: Seq<char>) -> Seq<BundleView> {
    Seq::new(ids.len(), |i: int| touched(bs[last_pos(bs, ids[i])->0], now))
}

fn find_last_bundle(bs: &Vec<SkillBundle>, id: &String) -> (r: Option<usize>)
    ensures
        r matches Some(i) ==> last_pos(bundles_view(bs@), id@) == Some(i as int),
        r is None ==> last_pos(bundles_view(bs@), id@) is None,
{
    let ghost v = bundles_view(bs@);
    let mut k: usize = bs.len();
    while k > 0
        invariant
            k <= bs.len(),
            v == bundles_view(bs@),
            last_pos(v, id@) == last_pos_from(v, id@, k - 1),
        decreases k,
    {
        assert(v[k - 1].id == bs@[k - 1].id@);
        if bs[k - 1].id == *id {
            return Some(k - 1);
        }
        k = k - 1;
    }
    None
}

fn copy_bundles(v: &Vec<SkillBundle>) -> (r: Vec<SkillBundle>)
    ensures
        bundles_view(r@) == bundles_view(v@),
{
    let mut r: Vec<SkillBundle> = Vec::new();
    let mut i: usize = 0;
    while i < v.len()
        invariant
            i <= v.len(),
            bundles_view(r@) == bundles_view(v@).take(i as int),
        decreases v.len() - i,
    {
        let ghost before = r@;
        r.push(copy_bundle(&v[i]));
        assert(bundles_view(r@) =~= bundles_view(before).push(v@[i as int]@));
        assert(bundles_view(v@).take(i + 1) =~= bundles_view(v@).take(i as int).push(v@[i as int]@));
        i = i + 1;
    }
    assert(bundles_view(v@).take(v.len() as int) =~= bundles_view(v@));
    r
}

/// Puts the bundles in the order of `bundle_ids`, each stamped with `now`, and returns them.
pub fn reorder_bundles_with(store: &mut BundleStore, bundle_ids: &[String], now: &str) -> (r: Result<Vec<SkillBundle>, BundleError>)
    ensures
        final(store).schema_version == old(store).schema_version,
        bundle_ids@.len() != old(store)@.len() ==> r == Err::<Vec<SkillBundle>, BundleError>(BundleError::OrderLengthMismatch)
            && final(store)@ == old(store)@,
        bundle_ids@.len() == old(store)@.len() && !order_ok(old(store)@, strings_view(bundle_ids@)) ==> r
            == Err::<Vec<SkillBundle>, BundleError>(BundleError::UnknownId) && final(store)@ == old(store)@,
        order_ok(old(store)@, strings_view(bundle_ids@)) ==> (r matches Ok(v) && bundles_view(v@) == reordered(
            old(store)@,
            strings_view(bundle_ids@),
            now@,
        ) && final(store)@ == bundles_view(v@)),
{
    if bundle_ids.len() != store.bundles.len() {
        return Err(BundleError::OrderLengthMismatch);
    }
    let ghost bs = store@;
    let ghost ids = strings_view(bundle_ids@);
    let mut ordered: Vec<SkillBundle> = Vec::new();
    let mut i: usize = 0;
    while i < bundle_ids.len()
        invariant
            i <= bundle_ids.len(),
            bundle_ids@.len() == bs.len(),
            bs == store@,
            ids == strings_view(bundle_ids@),
            forall|k: int| 0 <= k < i ==> (#[trigger] last_pos(bs, ids[k])) is Some && !repeated_before(ids, k),
            bundles_view(ordered@) == reordered(bs, ids, now@).take(i as int),
        decreases bundle_ids.len() - i,
    {
        let id = &bundle_ids[i];
        assert(ids[i as int] == id@);
        let mut j: usize = 0;
        while j < i
            invariant
                j <= i < bundle_ids.len(),
                bundle_ids@.len() == bs.len(),
                bs == store@,
                ids == strings_view(bundle_ids@),
                ids[i as int] == id@,
                forall|t: int| 0 <= t < j ==> #[trigger] ids[t] != ids[i as int],
            decreases i - j,
        {
            assert(ids[j as int] == bundle_ids@[j as int]@);
            if bundle_ids[j] == *id {
                assert(ids[j as int] == ids[i as int]);
                assert(repeated_before(ids, i as int));
                assert(!order_ok(bs, ids)) by {
                    if order_ok(bs, ids) {
                        assert(last_pos(bs, ids[i as int]) is Some);
                    }
                }
                return Err(BundleError::UnknownId);
            }
            j = j + 1;
        }
        let p = match find_last_bundle(&store.bundles, id) {
            Some(p) => p,
            None => {
                assert(last_pos(bs, ids[i as int]) is None);
                return Err(BundleError::UnknownId);
            },
        };
        proof { lemma_last_pos_from(bs, id@, bs.len() - 1); }
        let mut b = copy_bundle(&store.bundles[p]);
        b.updated_at = String::from_str(now);
        let ghost before = ordered@;
        ordered.push(b);
        assert(reordered(bs, ids, now@).take(i + 1) =~= reordered(bs, ids, now@).take(i as int).push(touched(bs[p as int], now@)));
        assert(bundles_view(ordered@) =~= bundles_view(before).push(touched(bs[p as int], now@)));
        i = i + 1;
    }
    assert(reordered(bs, ids, now@).take(bundle_ids.len() as int) =~= reordered(bs, ids, now@));
    store.bundles = copy_bundles(&ordered);
    Ok(ordered)
}

/// Puts the bundles in the order of `bundle_ids`, each stamped with the current time.
pub fn reorder_bundles(store: &mut BundleStore, bundle_ids: &[String]) -> (r: Result<Vec<SkillBundle>, BundleError>)
    ensures
        final(store).schema_version == old(store).schema_version,
        bundle_ids@.len() != old(store)@.len() ==> r == Err::<Vec<SkillBundle>, BundleError>(BundleError::OrderLengthMismatch)
            && final(store)@ == old(store)@,
        bundle_ids@.len() == old(store)@.len() && !order_ok(old(store)@, strings_view(bundle_ids@)) ==> r
            == Err::<Vec<SkillBundle>, BundleError>(BundleError::UnknownId) && final(store)@ == old(store)@,
        order_ok(old(store)@, strings_view(bundle_ids@)) ==> (r matches Ok(v) && (exists|now: Seq<char>| bundles_view(v@) == reordered(
            old(store)@,
            strings_view(bundle_ids@),
            now,
        )) && final(store)@ == bundles_view(v@)),
{
    let now = now_rfc3339();
    reorder_bundles_with(store, bundle_ids, now.as_str())
}

/// After a reorder the bundles carry the ids in the order given.
pub proof fn law_reorder_follows_ids(bs: Seq<BundleView>, ids: Seq<Seq<char>>, now: Seq<char>)
    requires
        order_ok(bs, ids),
    ensures
        reordered(bs, ids, now).len() == bs.len(),
        forall|i: int| 0 <= i < ids.len() ==> #[trigger] reordered(bs, ids, now)[i].id == ids[i],
{
    assert forall|i: int| 0 <= i < ids.len() implies #[trigger] reordered(bs, ids, now)[i].id == ids[i] by {
        assert(last_pos(bs, ids[i]) is Some);
        lemma_last_pos_from(bs, ids[i], bs.len() - 1);
    }
}

// ── export ──

/// A skill copied into an exported package, under `path`.
pub struct ExportedSkill {
    pub name: String,
    pub path: String,
}

/// A skill of the bundle that could not be exported; `kind` says why.
pub struct ExportWarning {
    pub kind: String,
    pub name: String,
}

/// The bundle an export was made of.
pub struct ExportedBundle {
    pub id: String,
    pub name: String,
    pub skill_count: usize,
}

/// What an export produced.
pub struct ExportResult {
    pub file_path: String,
    pub file_name: String,
    pub bundle: ExportedBundle,
    pub warnings: Vec<ExportWarning>,
}

/// The (name, path) of each skill found on disk, in order, under its sanitized name.
pub open spec fn exported_spec(names: Seq<Seq<char>>, present: Seq<bool>) -> Seq<(Seq<char>, Seq<char>)>
    decreases names.len(),
{
    if names.len() == 0 || present.len() != names.len() {
        Seq::empty()
    } else {
        let rest = exported_spec(names.drop_last(), present.drop_last());
        if present.last() {
            let safe = sanitize_spec(names.last());
            rest.push((safe, "skills/"@ + safe))
        } else {
            rest
        }
    }
}

/// The names of the skills not found on disk, in order.
pub open spec fn missing_spec(names: Seq<Seq<char>>, present: Seq<bool>) -> Seq<Seq<char>>
    decreases names.len(),
{
    if names.len() == 0 || present.len() != names.len() {
        Seq::empty()
    } else {
        let rest = missing_spec(names.drop_last(), present.drop_last());
        if present.last() {
            rest
        } else {
            rest.push(names.last())
        }
    }
}

pub open spec fn exported_view(v: Seq<ExportedSkill>) -> Seq<(Seq<char>, Seq<char>)> {
    Seq::new(v.len(), |i: int| (v[i].name@, v[i].path@))
}

pub open spec fn warnings_view(v: Seq<ExportWarning>) -> Seq<(Seq<char>, Seq<char>)> {
    Seq::new(v.len(), |i: int| (v[i].kind@, v[i].name@))
}

pub open spec fn missing_warnings(names: Seq<Seq<char>>) -> Seq<(Seq<char>, Seq<char>)> {
    Seq::new(names.len(), |i: int| ("missing-skill"@, names[i]))
}

/// Which skills of a bundle go into its package and which are reported missing, given for
/// each skill name whether its folder and `SKILL.md` exist. Refused when none is found.
pub fn plan_export(skill_names: &Vec<String>, present: &Vec<bool>) -> (r: Result<(Vec<ExportedSkill>, Vec<ExportWarning>), BundleError>)
    requires
        present.len() == skill_names.len(),
    ensures
        exported_spec(strings_view(skill_names@), present@).len() == 0 ==> r == Err::<
            (Vec<ExportedSkill>, Vec<ExportWarning>),
            BundleError,
        >(BundleError::NothingToExport),
        exported_spec(strings_view(skill_names@), present@).len() > 0 ==> (r matches Ok((skills, warnings)) && exported_view(skills@)
            == exported_spec(strings_view(skill_names@), present@) && warnings_view(warnings@) == missing_warnings(
            missing_spec(strings_view(skill_names@), present@),
        )),
{
    let ghost names = strings_view(skill_names@);
    let mut skills: Vec<ExportedSkill> = Vec::new();
    let mut warnings: Vec<ExportWarning> = Vec::new();
    let mut i: usize = 0;
    proof { reveal_strlit("skills/"); reveal_strlit("missing-skill"); }
    while i < skill_names.len()
        invariant
            i <= skill_names.len(),
            present.len() == skill_names.len(),
            names == strings_view(skill_names@),
            exported_view(skills@) == exported_spec(names.take(i as int), present@.take(i as int)),
            warnings_view(warnings@) == missing_warnings(missing_spec(names.take(i as int), present@.take(i as int))),
        decreases skill_names.len() - i,
    {
        assert(names.take(i + 1).drop_last() =~= names.take(i as int));
        assert(present@.take(i + 1).drop_last() =~= present@.take(i as int));
        assert(names.take(i + 1).last() == skill_names@[i as int]@);
        assert(present@.take(i + 1).last() == present@[i as int]);
        if present[i] {
            let safe = sanitize_name(skill_names[i].as_str());
            let mut path = String::from_str("skills/");
            append_str(&mut path, safe.as_str());
            let ghost before = skills@;
            skills.push(ExportedSkill { name: safe, path: path });
            assert(exported_view(skills@) =~= exported_view(before).push((sanitize_spec(names[i as int]), "skills/"@ + sanitize_spec(names[i as int]))));
        } else {
            let ghost before = warnings@;
            warnings.push(ExportWarning { kind: String::from_str("missing-skill"), name: skill_names[i].clone() });
            let ghost m0 = missing_spec(names.take(i as int), present@.take(i as int));
            assert(missing_spec(names.take(i + 1), present@.take(i + 1)) == m0.push(names[i as int]));
            assert(missing_warnings(m0.push(names[i as int])) =~= missing_warnings(m0).push(("missing-skill"@, names[i as int])));
            assert(warnings_view(warnings@) =~= warnings_view(before).push(("missing-skill"@, names[i as int])));
        }
        i = i + 1;
    }
    assert(names.take(skill_names.len() as int) =~= names);
    assert(present@.take(skill_names.len() as int) =~= present@);
    if skills.len() == 0 {
        return Err(BundleError::NothingToExport);
    }
    Ok((skills, warnings))
}

/// The file name of an exported bundle: its slugified name and `-skillbundle.zip`.
pub fn export_file_name(bundle_name: &str) -> (r: String)
    ensures
        r@ == slugify_spec(bundle_name@) + "-skillbundle.zip"@,
{
    let mut r = slugify(bundle_name);
    append_str(&mut r, "-skillbundle.zip");
    r
}

} // verus!
