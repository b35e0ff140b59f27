//! Plugins on disk and in marketplaces: which manifest a plugin folder has, what a plugin
//! contributes, the entries shown for installed and offered plugins, and how the two are
//! matched. The caller looks at the file system and hands over what it found.

use vstd::prelude::*;

use crate::skill_bundles::{slug_char, slug_chars};
use crate::text::{
    append_str, chars_of, clone_opt_string, has_prefix, is_alphanumeric, lowercase, str_eq, string_of,
    text_starts_with, to_lowercase, trim_char, trim_char_spec,
};

verus! {

// ── manifests ──

/// `ui` section of a plugin manifest.
pub struct PluginUiConfig {
    pub host_capabilities: Vec<String>,
}

/// `contributes` section of a plugin manifest; the configuration schema as JSON text.
pub struct PluginContributes {
    pub configuration: Option<String>,
}

/// The manifest of a plugin in the native format.
pub struct LoomManifest {
    pub id: String,
    pub name: String,
    pub version: String,
    pub description: String,
    pub trust: String,
    pub hidden: bool,
    pub min_app_version: Option<String>,
    pub ui: Option<PluginUiConfig>,
    pub contributes: Option<PluginContributes>,
}

pub struct UniversalSkillsRef {
    pub path: Option<String>,
}

pub struct UniversalMcpRef {
    pub path: Option<String>,
}

pub struct UniversalAppsRef {
    pub path: Option<String>,
}

pub struct UniversalInterface {
    pub display_name: Option<String>,
    pub short_description: Option<String>,
    pub developer_name: Option<String>,
    pub category: Option<String>,
    pub capabilities: Vec<String>,
    pub brand_color: Option<String>,
}

/// The `plugin.json` shared by several tools; `hooks` as JSON text.
pub struct UniversalManifest {
    pub name: String,
    pub version: String,
    pub description: String,
    pub author: String,
    pub homepage: Option<String>,
    pub repository: Option<String>,
    pub license: Option<String>,
    pub keywords: Vec<String>,
    pub skills: Option<UniversalSkillsRef>,
    pub mcp_servers: Option<UniversalMcpRef>,
    pub apps: Option<UniversalAppsRef>,
    pub hooks: Option<String>,
    pub interface: Option<UniversalInterface>,
}

/// An installed plugin as listed; `config_schema` as JSON text.
pub struct PluginEntry {
    pub id: String,
    pub name: String,
    pub version: String,
    pub description: String,
    pub source: String,
    pub status: String,
    pub trust: String,
    pub hidden: bool,
    pub plugin_dir: String,
    pub manifest_format: String,
    pub contributions: Vec<String>,
    pub config_schema: Option<String>,
    pub ui_host_capabilities: Option<Vec<String>>,
    pub author: Option<String>,
    pub repository: Option<String>,
    pub category: Option<String>,
}

pub open spec fn opt_view(o: Option<String>) -> Option<Seq<char>> {
    match o {
        Some(s) => Some(s@),
        None => None,
    }
}

pub open spec fn or_else(o: Option<String>, d: Seq<char>) -> Seq<char> {
    match o {
        Some(s) => s@,
        None => d,
    }
}

/// The id of a plugin named `value`: lowercased, every character that is neither alphanumeric
/// nor `-` made a `-`, without `-` at either end.
pub open spec fn plugin_slug(value: Seq<char>) -> Seq<char> {
    trim_char_spec(slug_chars(lowercase(value)), '-')
}

pub fn slugify(value: &str) -> (r: String)
    ensures
        r@ == plugin_slug(value@),
{
    let lower = to_lowercase(value);
    let cs = chars_of(lower.as_str());
    let mut mapped: Vec<char> = Vec::new();
    let mut i: usize = 0;
    while i < cs.len()
        invariant
            i <= cs.len(),
            mapped@ =~= slug_chars(cs@.take(i as int)),
        decreases cs.len() - i,
    {
        let c = cs[i];
        let m = if is_alphanumeric(c) || c == '-' {
            c
        } else {
            '-'
        };
        mapped.push(m);
        assert(slug_chars(cs@.take(i + 1)) =~= slug_chars(cs@.take(i as int)).push(m));
        i = i + 1;
    }
    assert(cs@.take(cs.len() as int) =~= cs@);
    let trimmed = trim_char(&mapped, '-');
    string_of(&trimmed)
}

/// Where a plugin folder may hold its manifest, in the order they are looked for, with the
/// format each one means.
pub open spec fn manifest_candidates() -> Seq<(Seq<char>, Seq<char>)> {
    seq![
        (".loom-plugin/plugin.json"@, "loom-plugin"@),
        (".codex-plugin/plugin.json"@, "codex-plugin"@),
    ]
}

/// The manifest places to look for, in order: (path inside the plugin folder, format).
pub fn manifest_paths() -> (r: Vec<(&'static str, &'static str)>)
    ensures
        r@.len() == manifest_candidates().len(),
        forall|i: int| 0 <= i < r@.len() ==> (#[trigger] r@[i]).0@ == manifest_candidates()[i].0 && r@[i].1@
            == manifest_candidates()[i].1,
{
    let mut r: Vec<(&'static str, &'static str)> = Vec::new();
    r.push((".loom-plugin/plugin.json", "loom-plugin"));
    r.push((".codex-plugin/plugin.json", "codex-plugin"));
    r
}

/// The first position at or after `k` where `present` holds.
pub open spec fn first_true_from(present: Seq<bool>, k: int) -> Option<int>
    decreases present.len() - k,
{
    if k < 0 || k >= present.len() {
        None
    } else if present[k] {
        Some(k)
    } else {
        first_true_from(present, k + 1)
    }
}

/// The format of the first manifest found, given whether each candidate place exists.
pub open spec fn found_format(present: Seq<bool>) -> Option<Seq<char>> {
    match first_true_from(present, 0) {
        Some(i) => Some(manifest_candidates()[i].1),
        None => None,
    }
}

/// The format of a folder's manifest, given for each place of `manifest_paths` whether it
/// exists; none when the folder holds no manifest.
pub fn find_manifest_in_dir(present: &Vec<bool>) -> (r: Option<String>)
    requires
        present.len() == manifest_candidates().len(),
    ensures
        opt_view(r) == found_format(present@),
{
    let cands = manifest_paths();
    let mut i: usize = 0;
    while i < present.len()
        invariant
            i <= present.len(),
            present.len() == cands@.len(),
            cands@.len() == manifest_candidates().len(),
            forall|j: int| 0 <= j < cands@.len() ==> (#[trigger] cands@[j]).1@ == manifest_candidates()[j].1,
            first_true_from(present@, 0) == first_true_from(present@, i as int),
        decreases present.len() - i,
    {
        if present[i] {
            let f = cands[i].1;
            assert(f@ == manifest_candidates()[i as int].1);
            return Some(String::from_str(f));
        }
        i = i + 1;
    }
    None
}

/// How a manifest of a given format is read.
#[derive(Debug, Clone, Copy, PartialEq, Eq, Structural)]
pub enum ManifestKind {
    /// The native manifest, read as a `LoomManifest`.
    Loom,
    /// A `plugin.json` of one of the shared layouts, read as a `UniversalManifest`.
    Universal,
}

pub open spec fn manifest_kind_spec(format: Seq<char>) -> Result<ManifestKind, Seq<char>> {
    if format == "loom"@ {
        Ok(ManifestKind::Loom)
    } else if format == "loom-plugin"@ || format == "codex-plugin"@ {
        Ok(ManifestKind::Universal)
    } else {
        Err("unknown manifest format: "@ + format)
    }
}

pub fn manifest_kind(format: &str) -> (r: Result<ManifestKind, String>)
    ensures
        match r {
            Ok(k) => manifest_kind_spec(format@) == Ok::<ManifestKind, Seq<char>>(k),
            Err(e) => manifest_kind_spec(format@) == Err::<ManifestKind, Seq<char>>(e@),
        },
{
    if str_eq(format, "loom") {
        Ok(ManifestKind::Loom)
    } else if str_eq(format, "loom-plugin") || str_eq(format, "codex-plugin") {
        Ok(ManifestKind::Universal)
    } else {
        let mut e = String::from_str("unknown manifest format: ");
        append_str(&mut e, format);
        Err(e)
    }
}

/// What a native plugin may hold, in the order it is reported: (entry in the plugin folder,
/// contribution it means).
pub open spec fn contribution_checks() -> Seq<(Seq<char>, Seq<char>)> {
    seq![
        ("tools"@, "tools"@),
        ("skills"@, "skills"@),
        ("commands"@, "commands"@),
        ("routes"@, "routes"@),
        ("agents"@, "agents"@),
        ("providers"@, "providers"@),
        ("extensions"@, "extensions"@),
        ("index.js"@, "lifecycle"@),
        ("mcp-servers"@, "mcp-servers"@),
        ("apps"@, "apps"@),
        ("hooks"@, "hooks"@),
    ]
}

/// The folder entries to look for, in order: (entry, contribution).
pub fn contribution_paths() -> (r: Vec<(&'static str, &'static str)>)
    ensures
        r@.len() == contribution_checks().len(),
        forall|i: int| 0 <= i < r@.len() ==> (#[trigger] r@[i]).0@ == contribution_checks()[i].0 && r@[i].1@
            == contribution_checks()[i].1,
{
    let mut r: Vec<(&'static str, &'static str)> = Vec::new();
    r.push(("tools", "tools"));
    r.push(("skills", "skills"));
    r.push(("commands", "commands"));
    r.push(("routes", "routes"));
    r.push(("agents", "agents"));
    r.push(("providers", "providers"));
    r.push(("extensions", "extensions"));
    r.push(("index.js", "lifecycle"));
    r.push(("mcp-servers", "mcp-servers"));
    r.push(("apps", "apps"));
    r.push(("hooks", "hooks"));
    r
}

/// The labels of `labels` whose flag in `present` holds, in order.
pub open spec fn kept_labels(labels: Seq<Seq<char>>, present: Seq<bool>) -> Seq<Seq<char>>
    decreases labels.len(),
{
    if labels.len() == 0 || present.len() != labels.len() {
        Seq::empty()
    } else {
        let rest = kept_labels(labels.drop_last(), present.drop_last());
        if present.last() {
            rest.push(labels.last())
        } else {
            rest
        }
    }
}

pub open spec fn check_labels() -> Seq<Seq<char>> {
    Seq::new(contribution_checks().len(), |i: int| contribution_checks()[i].1)
}

pub open spec fn strings_view(v: Seq<String>) -> Seq<Seq<char>> {
    Seq::new(v.len(), |i: int| v[i]@)
}

/// What a native plugin contributes, given for each entry of `contribution_paths` whether the
/// plugin folder has it.
pub fn detect_contributions(present: &Vec<bool>) -> (r: Vec<String>)
    requires
        present.len() == contribution_checks().len(),
    ensures
        strings_view(r@) == kept_labels(check_labels(), present@),
{
    let checks = contribution_paths();
    let ghost labels = check_labels();
    let mut r: Vec<String> = Vec::new();
    let mut i: usize = 0;
    while i < present.len()
        invariant
            i <= present.len(),
            present.len() == checks@.len(),
            checks@.len() == contribution_checks().len(),
            labels == check_labels(),
            forall|j: int| 0 <= j < checks@.len() ==> (#[trigger] checks@[j]).1@ == contribution_checks()[j].1,
            strings_view(r@) == kept_labels(labels.take(i as int), present@.take(i as int)),
        decreases present.len() - i,
    {
        assert(labels.take(i + 1).drop_last() =~= labels.take(i as int));
        assert(present@.take(i + 1).drop_last() =~= present@.take(i as int));
        assert(labels.take(i + 1).last() == checks@[i as int].1@);
        assert(present@.take(i + 1).last() == present@[i as int]);
        if present[i] {
            let ghost before = r@;
            r.push(String::from_str(checks[i].1));
            assert(strings_view(r@) =~= strings_view(before).push(checks@[i as int].1@));
        }
        i = i + 1;
    }
    assert(labels.take(present.len() as int) =~= labels);
    assert(present@.take(present.len() as int) =~= present@);
    r
}

// ── installed plugins ──

fn clone_strings(v: &Vec<String>) -> (r: Vec<String>)
    ensures
        r@ == v@,
{
    crate::skill_bundles::clone_strings(v)
}

/// The entry of a native plugin: its id (the folder name when the manifest has none), its name
/// (the id when the manifest has none), its trust (`restricted` when unset).
pub fn loom_entry(manifest: LoomManifest, dir_name: &str, plugin_dir: &str, contributions: Vec<String>) -> (r: PluginEntry)
    ensures
        r.id@ == (if manifest.id@.len() == 0 { dir_name@ } else { manifest.id@ }),
        r.name@ == (if manifest.name@.len() == 0 { r.id@ } else { manifest.name@ }),
        r.version == manifest.version,
        r.description == manifest.description,
        r.source@ == "user"@,
        r.status@ == "loaded"@,
        r.trust@ == (if manifest.trust@.len() == 0 { "restricted"@ } else { manifest.trust@ }),
        r.hidden == manifest.hidden,
        r.plugin_dir@ == plugin_dir@,
        r.manifest_format@ == "loom"@,
        r.contributions@ == contributions@,
        r.config_schema == (match manifest.contributes {
            Some(c) => c.configuration,
            None => None,
        }),
        r.ui_host_capabilities == (match manifest.ui {
            Some(u) => Some(u.host_capabilities),
            None => None::<Vec<String>>,
        }),
        r.author is None && r.repository is None && r.category is None,
{
    let id = if manifest.id.as_str().is_empty() {
        String::from_str(dir_name)
    } else {
        manifest.id
    };
    let name = if manifest.name.as_str().is_empty() {
        id.clone()
    } else {
        manifest.name
    };
    let trust = if manifest.trust.as_str().is_empty() {
        String::from_str("restricted")
    } else {
        manifest.trust
    };
    let config_schema = match manifest.contributes {
        Some(c) => c.configuration,
        None => None,
    };
    let ui_caps = match manifest.ui {
        Some(u) => Some(u.host_capabilities),
        None => None,
    };
    PluginEntry {
        id: id,
        name: name,
        version: manifest.version,
        description: manifest.description,
        source: String::from_str("user"),
        status: String::from_str("loaded"),
        trust: trust,
        hidden: manifest.hidden,
        plugin_dir: String::from_str(plugin_dir),
        manifest_format: String::from_str("loom"),
        contributions: contributions,
        config_schema: config_schema,
        ui_host_capabilities: ui_caps,
        author: None,
        repository: None,
        category: None,
    }
}

/// Where a shared-layout plugin keeps its skills, MCP servers and apps, relative to its
/// folder: the manifest's paths, else `skills`, `mcp-servers` and `apps`.
pub open spec fn universal_dirs_spec(m: UniversalManifest) -> (Seq<char>, Seq<char>, Seq<char>) {
    (
        match m.skills {
            Some(r) => or_else(r.path, "skills"@),
            None => "skills"@,
        },
        match m.mcp_servers {
            Some(r) => or_else(r.path, "mcp-servers"@),
            None => "mcp-servers"@,
        },
        match m.apps {
            Some(r) => or_else(r.path, "apps"@),
            None => "apps"@,
        },
    )
}

fn path_or(p: &Option<String>, default: &str) -> (r: String)
    ensures
        r@ == or_else(*p, default@),
{
    match p {
        Some(s) => s.clone(),
        None => String::from_str(default),
    }
}

pub fn universal_dirs(m: &UniversalManifest) -> (r: (String, String, String))
    ensures
        (r.0@, r.1@, r.2@) == universal_dirs_spec(*m),
{
    let skills = match &m.skills {
        Some(r) => path_or(&r.path, "skills"),
        None => String::from_str("skills"),
    };
    let mcp = match &m.mcp_servers {
        Some(r) => path_or(&r.path, "mcp-servers"),
        None => String::from_str("mcp-servers"),
    };
    let apps = match &m.apps {
        Some(r) => path_or(&r.path, "apps"),
        None => String::from_str("apps"),
    };
    (skills, mcp, apps)
}

/// What a shared-layout plugin contributes, in the order reported: skills when its skills
/// folder holds a `.md` file, MCP servers and apps when their folders exist, hooks when the
/// manifest declares them or a `hooks` folder exists, tools when a `tools` folder exists.
pub open spec fn universal_contributions_spec(skills_md: bool, mcp: bool, apps: bool, hooks: bool, tools: bool) -> Seq<Seq<char>> {
    kept_labels(seq!["skills"@, "mcp-servers"@, "apps"@, "hooks"@, "tools"@], seq![skills_md, mcp, apps, hooks, tools])
}

pub fn universal_contributions(skills_md: bool, mcp: bool, apps: bool, hooks: bool, tools: bool) -> (r: Vec<String>)
    ensures
        strings_view(r@) == universal_contributions_spec(skills_md, mcp, apps, hooks, tools),
{
    let mut r: Vec<String> = Vec::new();
    if skills_md {
        r.push(String::from_str("skills"));
    }
    if mcp {
        r.push(String::from_str("mcp-servers"));
    }
    if apps {
        r.push(String::from_str("apps"));
    }
    if hooks {
        r.push(String::from_str("hooks"));
    }
    if tools {
        r.push(String::from_str("tools"));
    }
    proof {
        reveal_with_fuel(kept_labels, 6);
        let l = seq!["skills"@, "mcp-servers"@, "apps"@, "hooks"@, "tools"@];
        let p = seq![skills_md, mcp, apps, hooks, tools];
        assert(l.drop_last() =~= seq!["skills"@, "mcp-servers"@, "apps"@, "hooks"@]);
        assert(p.drop_last() =~= seq![skills_md, mcp, apps, hooks]);
        assert(l.drop_last().drop_last() =~= seq!["skills"@, "mcp-servers"@, "apps"@]);
        assert(p.drop_last().drop_last() =~= seq![skills_md, mcp, apps]);
        assert(l.drop_last().drop_last().drop_last() =~= seq!["skills"@, "mcp-servers"@]);
        assert(p.drop_last().drop_last().drop_last() =~= seq![skills_md, mcp]);
        assert(l.drop_last().drop_last().drop_last().drop_last() =~= seq!["skills"@]);
        assert(p.drop_last().drop_last().drop_last().drop_last() =~= seq![skills_md]);
        assert(seq!["skills"@].drop_last() =~= Seq::<Seq<char>>::empty());
        assert(seq![skills_md].drop_last() =~= Seq::<bool>::empty());
    }
    assert(strings_view(r@) =~= universal_contributions_spec(skills_md, mcp, apps, hooks, tools));
    r
}

pub open spec fn interface_field(i: Option<UniversalInterface>, f: spec_fn(UniversalInterface) -> Option<String>) -> Option<String> {
    match i {
        Some(x) => f(x),
        None => None,
    }
}

/// The entry of a shared-layout plugin: id from its name, the interface's display name and
/// short description where given, version `0.1.0` when unset, always restricted.
pub fn universal_entry(manifest: UniversalManifest, plugin_dir: &str, format_name: &str, contributions: Vec<String>) -> (r: PluginEntry)
    ensures
        r.id@ == plugin_slug(manifest.name@),
        r.name@ == or_else(interface_field(manifest.interface, |x: UniversalInterface| x.display_name), manifest.name@),
        r.version@ == (if manifest.version@.len() == 0 { "0.1.0"@ } else { manifest.version@ }),
        r.description@ == or_else(interface_field(manifest.interface, |x: UniversalInterface| x.short_description), manifest.description@),
        r.source@ == "user"@,
        r.status@ == "loaded"@,
        r.trust@ == "restricted"@,
        !r.hidden,
        r.plugin_dir@ == plugin_dir@,
        r.manifest_format@ == format_name@,
        r.contributions@ == contributions@,
        r.config_schema is None,
        r.ui_host_capabilities is None,
        opt_view(r.author) == (if manifest.author@.len() == 0 { None } else { Some(manifest.author@) }),
        r.repository == manifest.repository,
        opt_view(r.category) == opt_view(interface_field(manifest.interface, |x: UniversalInterface| x.category)),
{
    let id = slugify(manifest.name.as_str());
    let (display, short, category) = match &manifest.interface {
        Some(i) => (clone_opt_string(&i.display_name), clone_opt_string(&i.short_description), clone_opt_string(&i.category)),
        None => (None, None, None),
    };
    let name = match display {
        Some(d) => d,
        None => manifest.name.clone(),
    };
    let description = match short {
        Some(d) => d,
        None => manifest.description,
    };
    let version = if manifest.version.as_str().is_empty() {
        String::from_str("0.1.0")
    } else {
        manifest.version
    };
    let author = if manifest.author.as_str().is_empty() {
        None
    } else {
        Some(manifest.author)
    };
    PluginEntry {
        id: id,
        name: name,
        version: version,
        description: description,
        source: String::from_str("user"),
        status: String::from_str("loaded"),
        trust: String::from_str("restricted"),
        hidden: false,
        plugin_dir: String::from_str(plugin_dir),
        manifest_format: String::from_str(format_name),
        contributions: contributions,
        config_schema: None,
        ui_host_capabilities: None,
        author: author,
        repository: manifest.repository,
        category: category,
    }
}

/// Whether a folder met when listing installed plugins is passed over: hidden ones, `cache`
/// and `data`.
pub open spec fn skip_plugin_dir_spec(name: Seq<char>) -> bool {
    has_prefix(name, "."@) || name == "cache"@ || name == "data"@
}

pub fn skip_plugin_dir(name: &str) -> (b: bool)
    ensures
        b == skip_plugin_dir_spec(name@),
{
    text_starts_with(name, ".") || str_eq(name, "cache") || str_eq(name, "data")
}

/// The entry given to a plugin copied in without a readable manifest.
pub fn fallback_entry(plugin_id: &str, plugin_dir: &str, contributions: Vec<String>) -> (r: PluginEntry)
    ensures
        r.id@ == plugin_id@ && r.name@ == plugin_id@,
        r.version@ == "0.1.0"@,
        r.description@.len() == 0,
        r.source@ == "user"@,
        r.status@ == "loaded"@,
        r.trust@ == "restricted"@,
        !r.hidden,
        r.plugin_dir@ == plugin_dir@,
        r.manifest_format@ == "unknown"@,
        r.contributions@ == contributions@,
        r.config_schema is None && r.ui_host_capabilities is None,
        r.author is None && r.repository is None && r.category is None,
{
    PluginEntry {
        id: String::from_str(plugin_id),
        name: String::from_str(plugin_id),
        version: String::from_str("0.1.0"),
        description: String::new(),
        source: String::from_str("user"),
        status: String::from_str("loaded"),
        trust: String::from_str("restricted"),
        hidden: false,
        plugin_dir: String::from_str(plugin_dir),
        manifest_format: String::from_str("unknown"),
        contributions: contributions,
        config_schema: None,
        ui_host_capabilities: None,
        author: None,
        repository: None,
        category: None,
    }
}

// ── marketplaces ──

pub struct MarketplaceCompatibility {
    pub min_app_version: Option<String>,
}

/// Where an offered plugin can be installed from: `kind` is `source` for a local folder.
pub struct MarketplaceDistribution {
    pub kind: String,
    pub path: String,
}

/// A plugin offered by a marketplace, with its standing against the installed plugins.
pub struct MarketplacePlugin {
    pub id: String,
    pub name: String,
    pub publisher: Option<String>,
    pub version: Option<String>,
    pub description: Option<String>,
    pub trust: String,
    pub contributions: Vec<String>,
    pub repository: Option<String>,
    pub compatibility: MarketplaceCompatibility,
    pub distribution: Option<MarketplaceDistribution>,
    pub installed: bool,
    pub installed_version: Option<String>,
    pub latest_version: Option<String>,
    pub update_available: bool,
    pub can_install: bool,
    pub install_action: String,
    pub compatible: bool,
}

/// A configured marketplace source: `kind` is `git` or `local`.
pub struct MarketplaceSource {
    pub kind: String,
    pub url: Option<String>,
    pub path: Option<String>,
    pub configured: bool,
    pub name: String,
}

pub struct MarketplaceOwner {
    pub name: String,
}

/// Where a marketplace listing says a plugin comes from.
pub enum EntrySource {
    /// A path relative to the listing's repository, or an address.
    Text(String),
    /// Any other JSON value; its `source` and `url` strings where it has them.
    Other { source_type: Option<String>, url: Option<String> },
}

/// One plugin of a `marketplace.json` listing.
pub struct MarketplaceEntry {
    pub name: String,
    pub description: String,
    pub version: Option<String>,
    pub author: Option<MarketplaceOwner>,
    pub category: Option<String>,
    pub homepage: Option<String>,
    pub source: Option<EntrySource>,
}

/// A `marketplace.json` listing.
pub struct MarketplaceListing {
    pub name: String,
    pub owner: Option<MarketplaceOwner>,
    pub plugins: Vec<MarketplaceEntry>,
}

pub open spec fn desc_opt(d: Seq<char>) -> Option<Seq<char>> {
    if d.len() == 0 {
        None
    } else {
        Some(d)
    }
}

/// What an offered plugin found in a marketplace folder shows before it is compared with the
/// installed plugins.
pub open spec fn offered_from_entry_spec(e: PluginEntry, plugin_dir: Seq<char>, r: MarketplacePlugin) -> bool {
    &&& r.id == e.id
    &&& r.name == e.name
    &&& r.publisher == e.author
    &&& opt_view(r.version) == Some(e.version@)
    &&& opt_view(r.description) == desc_opt(e.description@)
    &&& r.trust == e.trust
    &&& r.contributions@ == e.contributions@
    &&& r.repository == e.repository
    &&& r.compatibility.min_app_version is None
    &&& r.distribution matches Some(d) && d.kind@ == "source"@ && d.path@ == plugin_dir
    &&& !r.installed && r.installed_version is None
    &&& opt_view(r.latest_version) == Some(e.version@)
    &&& !r.update_available && r.can_install && r.compatible
    &&& r.install_action@ == "install"@
}

/// The offered plugin for a plugin folder of a marketplace.
pub fn offered_from_entry(entry: PluginEntry, plugin_dir: &str) -> (r: MarketplacePlugin)
    ensures
        offered_from_entry_spec(entry, plugin_dir@, r),
{
    let ghost e = entry;
    let ver = entry.version.clone();
    let description = if entry.description.as_str().is_empty() {
        None
    } else {
        Some(entry.description)
    };
    MarketplacePlugin {
        id: entry.id,
        name: entry.name,
        publisher: entry.author,
        version: Some(ver.clone()),
        description: description,
        trust: entry.trust,
        contributions: entry.contributions,
        repository: entry.repository,
        compatibility: MarketplaceCompatibility { min_app_version: None },
        distribution: Some(MarketplaceDistribution { kind: String::from_str("source"), path: String::from_str(plugin_dir) }),
        installed: false,
        installed_version: None,
        latest_version: Some(ver),
        update_available: false,
        can_install: true,
        install_action: String::from_str("install"),
        compatible: true,
    }
}

/// What a listing's `source` says: (path relative to the listing's repository when the plugin
/// is there, whether the plugin is elsewhere, its address when given).
pub open spec fn parse_source_spec(source: Option<EntrySource>) -> (Option<Seq<char>>, bool, Option<Seq<char>>) {
    match source {
        None => (None, true, None),
        Some(EntrySource::Text(s)) => if has_prefix(s@, "./"@) || has_prefix(s@, "../"@) {
            (Some(s@), false, None)
        } else if has_prefix(s@, "http"@) {
            (None, true, Some(s@))
        } else {
            (None, true, None)
        },
        Some(EntrySource::Other { source_type, url }) => (None, true, opt_view(url)),
    }
}

pub fn parse_source(source: &Option<EntrySource>) -> (r: (Option<String>, bool, Option<String>))
    ensures
        (opt_view(r.0), r.1, opt_view(r.2)) == parse_source_spec(*source),
{
    match source {
        None => (None, true, None),
        Some(EntrySource::Text(s)) => {
            if text_starts_with(s.as_str(), "./") || text_starts_with(s.as_str(), "../") {
                (Some(s.clone()), false, None)
            } else if text_starts_with(s.as_str(), "http") {
                (None, true, Some(s.clone()))
            } else {
                (None, true, None)
            }
        },
        Some(EntrySource::Other { source_type, url }) => (None, true, clone_opt_string(url)),
    }
}

pub open spec fn owner_name(o: Option<MarketplaceOwner>) -> Option<Seq<char>> {
    match o {
        Some(x) => Some(x.name@),
        None => None,
    }
}

pub open spec fn or_opt(a: Option<Seq<char>>, b: Option<Seq<char>>) -> Option<Seq<char>> {
    match a {
        Some(x) => Some(x),
        None => b,
    }
}

/// What a plugin of a listing shows: the listing entry's details, with the details of the
/// plugin's own manifest laid over them when it is in the repository and could be read.
pub open spec fn listed_plugin_spec(
    owner: Option<MarketplaceOwner>,
    entry: MarketplaceEntry,
    local_path: Option<Seq<char>>,
    is_remote: bool,
    remote_url: Option<Seq<char>>,
    loaded: Option<PluginEntry>,
    r: MarketplacePlugin,
) -> bool {
    let publisher0 = or_opt(owner_name(entry.author), owner_name(owner));
    let description0 = desc_opt(entry.description@);
    &&& r.id@ == plugin_slug(entry.name@)
    &&& r.name == entry.name
    &&& r.compatibility.min_app_version is None
    &&& (match local_path {
        Some(p) => r.distribution matches Some(d) && d.kind@ == "source"@ && d.path@ == p,
        None => r.distribution is None,
    })
    &&& !r.installed && r.installed_version is None && !r.update_available
    &&& r.can_install == !is_remote && r.compatible == !is_remote
    &&& r.install_action@ == (if is_remote { "incompatible"@ } else { "install"@ })
    &&& match loaded {
        None => {
            &&& opt_view(r.publisher) == publisher0
            &&& r.version == entry.version
            &&& r.latest_version == entry.version
            &&& opt_view(r.description) == description0
            &&& r.trust@ == "restricted"@
            &&& r.contributions@.len() == 0
            &&& opt_view(r.repository) == remote_url
        },
        Some(pe) => {
            &&& opt_view(r.publisher) == or_opt(publisher0, opt_view(pe.author))
            &&& opt_view(r.version) == Some(pe.version@)
            &&& opt_view(r.latest_version) == Some(pe.version@)
            &&& opt_view(r.description) == or_opt(description0, desc_opt(pe.description@))
            &&& r.trust == pe.trust
            &&& r.contributions@ == pe.contributions@
            &&& opt_view(r.repository) == or_opt(remote_url, opt_view(pe.repository))
        },
    }
}

/// The offered plugin for an entry of a listing, given where its source was found and, when it
/// is in the repository, the plugin read from there.
pub fn listed_plugin(
    owner: &Option<MarketplaceOwner>,
    entry: &MarketplaceEntry,
    local_path: Option<String>,
    is_remote: bool,
    remote_url: Option<String>,
    loaded: Option<PluginEntry>,
) -> (r: MarketplacePlugin)
    ensures
        listed_plugin_spec(*owner, *entry, opt_view(local_path), is_remote, opt_view(remote_url), loaded, r),
{
    let publisher0 = match &entry.author {
        Some(a) => Some(a.name.clone()),
        None => match owner {
            Some(o) => Some(o.name.clone()),
            None => None,
        },
    };
    let description0 = if entry.description.as_str().is_empty() {
        None
    } else {
        Some(entry.description.clone())
    };
    let distribution = match local_path {
        Some(p) => Some(MarketplaceDistribution { kind: String::from_str("source"), path: p }),
        None => None,
    };
    let install_action = if is_remote {
        String::from_str("incompatible")
    } else {
        String::from_str("install")
    };
    let mut mp = MarketplacePlugin {
        id: slugify(entry.name.as_str()),
        name: entry.name.clone(),
        publisher: publisher0,
        version: clone_opt_string(&entry.version),
        description: description0,
        trust: String::from_str("restricted"),
        contributions: Vec::new(),
        repository: remote_url,
        compatibility: MarketplaceCompatibility { min_app_version: None },
        distribution: distribution,
        installed: false,
        installed_version: None,
        latest_version: clone_opt_string(&entry.version),
        update_available: false,
        can_install: !is_remote,
        install_action: install_action,
        compatible: !is_remote,
    };
    match loaded {
        Some(pe) => {
            let ver = pe.version;
            mp.version = Some(ver.clone());
            mp.latest_version = Some(ver);
            mp.contributions = pe.contributions;
            mp.trust = pe.trust;
            if mp.description.is_none() && !pe.description.as_str().is_empty() {
                mp.description = Some(pe.description);
            }
            if mp.publisher.is_none() {
                mp.publisher = pe.author;
            }
            if mp.repository.is_none() {
                mp.repository = pe.repository;
            }
        },
        None => {},
    }
    mp
}

/// Whether a folder of a marketplace repository is passed over when looking for plugins in
/// its subfolders.
pub open spec fn skip_source_subdir_spec(name: Seq<char>) -> bool {
    has_prefix(name, "."@) || name == "plugins"@ || name == "external_plugins"@ || name == "scripts"@ || name
        == "tests"@ || name == ".github"@
}

pub fn skip_source_subdir(name: &str) -> (b: bool)
    ensures
        b == skip_source_subdir_spec(name@),
{
    text_starts_with(name, ".") || str_eq(name, "plugins") || str_eq(name, "external_plugins") || str_eq(name, "scripts")
        || str_eq(name, "tests") || str_eq(name, ".github")
}

/// The folder an offered plugin is installed from.
pub fn distribution_path(mp: &MarketplacePlugin) -> (r: Result<String, String>)
    ensures
        match mp.distribution {
            Some(d) => r == Ok::<String, String>(d.path),
            None => r matches Err(e) && e@ == "no distribution path"@,
        },
{
    match &mp.distribution {
        Some(d) => Ok(d.path.clone()),
        None => Err(String::from_str("no distribution path")),
    }
}

// ── matching offered and installed plugins ──

/// The position of the last installed plugin with the id `id` (the one a map keyed by id keeps).
pub open spec fn last_installed_from(installed: Seq<PluginEntry>, id: Seq<char>, k: int) -> Option<int>
    decreases k + 1,
{
    if k < 0 || k >= installed.len() {
        None
    } else if installed[k].id@ == id {
        Some(k)
    } else {
        last_installed_from(installed, id, k - 1)
    }
}

pub open spec fn last_installed(installed: Seq<PluginEntry>, id: Seq<char>) -> Option<int> {
    last_installed_from(installed, id, installed.len() - 1)
}

/// An offered plugin after comparing it with the installed ones: installed plugins show their
/// version, whether the offer is newer (`update`) or not (`reinstall`); others are offered for
/// install; an incompatible offer cannot be installed.
pub open spec fn xref_spec(old: MarketplacePlugin, installed: Seq<PluginEntry>, new: MarketplacePlugin) -> bool {
    &&& new.id == old.id
    &&& new.name == old.name
    &&& new.publisher == old.publisher
    &&& new.version == old.version
    &&& new.description == old.description
    &&& new.trust == old.trust
    &&& new.contributions@ == old.contributions@
    &&& new.repository == old.repository
    &&& new.compatibility == old.compatibility
    &&& new.distribution == old.distribution
    &&& new.latest_version == old.latest_version
    &&& match last_installed(installed, old.id@) {
        Some(k) => {
            let has_update = (old.latest_version matches Some(lv) && lv@ != installed[k].version@);
            &&& new.installed
            &&& opt_view(new.installed_version) == Some(installed[k].version@)
            &&& new.update_available == has_update
            &&& new.compatible == old.compatible
            &&& new.can_install == old.compatible
            &&& new.install_action@ == (if !old.compatible {
                "incompatible"@
            } else if has_update {
                "update"@
            } else {
                "reinstall"@
            })
        },
        None => {
            &&& !new.installed
            &&& new.installed_version is None
            &&& !new.update_available
            &&& new.compatible && new.can_install
            &&& new.install_action@ == "install"@
        },
    }
}

fn find_last_installed(installed: &Vec<PluginEntry>, id: &String) -> (r: Option<usize>)
    ensures
        r matches Some(i) ==> last_installed(installed@, id@) == Some(i as int),
        r is None ==> last_installed(installed@, id@) is None,
{
    let mut k: usize = installed.len();
    while k > 0
        invariant
            k <= installed.len(),
            last_installed(installed@, id@) == last_installed_from(installed@, id@, k - 1),
        decreases k,
    {
        if installed[k - 1].id == *id {
            return Some(k - 1);
        }
        k = k - 1;
    }
    None
}

proof fn lemma_last_installed(installed: Seq<PluginEntry>, id: Seq<char>, k: int)
    requires
        k < installed.len(),
    ensures
        last_installed_from(installed, id, k) matches Some(i) ==> 0 <= i <= k,
    decreases k + 1,
{
    if k >= 0 && installed[k].id@ != id {
        lemma_last_installed(installed, id, k - 1);
    }
}

fn xref_one(mp: MarketplacePlugin, installed: &Vec<PluginEntry>) -> (r: MarketplacePlugin)
    ensures
        xref_spec(mp, installed@, r),
{
    let ghost old = mp;
    let mut mp = mp;
    match find_last_installed(installed, &mp.id) {
        Some(k) => {
            proof { lemma_last_installed(installed@, old.id@, installed@.len() - 1); }
            let inst_version = &installed[k].version;
            mp.installed = true;
            mp.installed_version = Some(inst_version.clone());
            let has_update = match &mp.latest_version {
                Some(lv) => *lv != *inst_version,
                None => false,
            };
            mp.update_available = has_update;
            mp.install_action = if has_update {
                String::from_str("update")
            } else {
                String::from_str("reinstall")
            };
        },
        None => {
            mp.installed = false;
            mp.installed_version = None;
            mp.update_available = false;
            mp.install_action = String::from_str("install");
            mp.can_install = true;
            mp.compatible = true;
        },
    }
    mp.can_install = mp.compatible;
    if !mp.compatible {
        mp.install_action = String::from_str("incompatible");
    }
    mp
}

/// Compares every offered plugin with the installed ones (see `xref_spec`).
pub fn cross_reference_marketplace(marketplace: &mut Vec<MarketplacePlugin>, installed: &Vec<PluginEntry>)
    ensures
        final(marketplace)@.len() == old(marketplace)@.len(),
        forall|i: int| 0 <= i < old(marketplace)@.len() ==> xref_spec(old(marketplace)@[i], installed@, #[trigger] final(marketplace)@[i]),
{
    let mut rest: Vec<MarketplacePlugin> = Vec::new();
    std::mem::swap(&mut rest, marketplace);
    let ghost orig = rest@;
    let n0 = rest.len();
    assert(orig.len() == n0);
    let mut i: usize = 0;
    while rest.len() > 0
        invariant
            orig == old(marketplace)@,
            orig.len() <= usize::MAX,
            i + rest@.len() == orig.len(),
            rest@ == orig.skip(i as int),
            marketplace@.len() == i,
            forall|j: int| 0 <= j < i ==> xref_spec(orig[j], installed@, #[trigger] marketplace@[j]),
        decreases rest@.len(),
    {
        let mp = rest.remove(0);
        assert(mp == orig[i as int]);
        let n = xref_one(mp, installed);
        marketplace.push(n);
        assert(rest@ =~= orig.skip(i + 1));
        i = i + 1;
    }
}

/// Whether `id` is the id of a plugin in `v` before position `k`.
pub open spec fn id_seen_before(v: Seq<MarketplacePlugin>, id: Seq<char>, k: int) -> bool {
    exists|j: int| 0 <= j < k && (#[trigger] v[j]).id@ == id
}

/// The plugins of `v` whose id no earlier plugin has, in order.
pub open spec fn first_by_id(v: Seq<MarketplacePlugin>) -> Seq<MarketplacePlugin>
    decreases v.len(),
{
    if v.len() == 0 {
        v
    } else {
        let rest = first_by_id(v.drop_last());
        if id_seen_before(v, v.last().id@, v.len() - 1) {
            rest
        } else {
            rest.push(v.last())
        }
    }
}

/// Keeps the first offered plugin of each id.
pub fn dedup_by_id(plugins: Vec<MarketplacePlugin>) -> (r: Vec<MarketplacePlugin>)
    ensures
        r@ == first_by_id(plugins@),
{
    let ghost orig = plugins@;
    let mut rest = plugins;
    let n0 = rest.len();
    assert(orig.len() == n0);
    let mut kept: Vec<MarketplacePlugin> = Vec::new();
    let mut seen: Vec<String> = Vec::new();
    let mut i: usize = 0;
    while rest.len() > 0
        invariant
            i + rest@.len() == orig.len(),
            orig.len() <= usize::MAX,
            rest@ == orig.skip(i as int),
            kept@ == first_by_id(orig.take(i as int)),
            seen@.len() == i,
            forall|j: int| 0 <= j < i ==> (#[trigger] seen@[j])@ == orig[j].id@,
        decreases rest@.len(),
    {
        let mp = rest.remove(0);
        assert(mp == orig[i as int]);
        assert(rest@ =~= orig.skip(i + 1));
        let mut dup = false;
        let mut j: usize = 0;
        while j < seen.len()
            invariant
                j <= seen.len(),
                seen@.len() == i,
                i < orig.len(),
                mp == orig[i as int],
                forall|t: int| 0 <= t < i ==> (#[trigger] seen@[t])@ == orig[t].id@,
                dup == (exists|t: int| 0 <= t < j && (#[trigger] orig[t]).id@ == mp.id@),
            decreases seen.len() - j,
        {
            if seen[j] == mp.id {
                assert(orig[j as int].id@ == mp.id@);
                dup = true;
            }
            j = j + 1;
        }
        let ghost t = orig.take(i + 1);
        assert(t.drop_last() =~= orig.take(i as int));
        assert(t.last() == orig[i as int]);
        assert(id_seen_before(t, t.last().id@, i as int) == dup) by {
            if dup {
                let w = choose|w: int| 0 <= w < i && (#[trigger] orig[w]).id@ == mp.id@;
                assert(t[w] == orig[w]);
            }
            if id_seen_before(t, t.last().id@, i as int) {
                let w = choose|w: int| 0 <= w < i && (#[trigger] t[w]).id@ == t.last().id@;
                assert(t[w] == orig[w]);
            }
        }
        seen.push(mp.id.clone());
        if !dup {
            kept.push(mp);
        }
        i = i + 1;
    }
    assert(orig.take(orig.len() as int) =~= orig);
    kept
}

/// Keeping the first plugin of each id leaves no id twice.
pub proof fn law_dedup_ids_distinct(v: Seq<MarketplacePlugin>)
    ensures
        forall|a: int, b: int| 0 <= a < b < first_by_id(v).len() ==> (#[trigger] first_by_id(v)[a]).id@ != (#[trigger] first_by_id(v)[b]).id@,
        forall|a: int| 0 <= a < first_by_id(v).len() ==> exists|j: int| 0 <= j < v.len() && #[trigger] first_by_id(v)[a] == v[j],
    decreases v.len(),
{
    if v.len() > 0 {
        let d = v.drop_last();
        law_dedup_ids_distinct(d);
        let r = first_by_id(d);
        assert forall|a: int| 0 <= a < r.len() implies exists|j: int| 0 <= j < v.len() && #[trigger] r[a] == v[j] by {
            let j = choose|j: int| 0 <= j < d.len() && #[trigger] r[a] == d[j];
            assert(v[j] == d[j]);
        }
        if !id_seen_before(v, v.last().id@, v.len() - 1) {
            let rr = r.push(v.last());
            assert forall|a: int| 0 <= a < r.len() implies (#[trigger] rr[a]).id@ != v.last().id@ by {
                let j = choose|j: int| 0 <= j < d.len() && #[trigger] r[a] == d[j];
                assert(v[j] == d[j]);
            }
            assert(rr[r.len() as int] == v[v.len() - 1]);
        }
    }
}

/// The warning for a source whose listing file could not be read.
pub fn listing_parse_warning(source: &str, error: &str) -> (r: String)
    ensures
        r@ == "\u{6e90}\u{300c}"@ + source@ + "\u{300d}marketplace.json \u{89e3}\u{6790}\u{5931}\u{8d25}: "@ + error@,
{
    let mut r = String::from_str("\u{6e90}\u{300c}");
    append_str(&mut r, source);
    append_str(&mut r, "\u{300d}marketplace.json \u{89e3}\u{6790}\u{5931}\u{8d25}: ");
    append_str(&mut r, error);
    r
}

/// The warning for a configured source in which no plugin and no listing was found.
pub fn empty_source_warning(source: &str) -> (r: String)
    ensures
        r@ == "\u{6e90}\u{300c}"@ + source@ + "\u{300d}\u{672a}\u{53d1}\u{73b0}\u{63d2}\u{4ef6}\u{6216} marketplace.json"@,
{
    let mut r = String::from_str("\u{6e90}\u{300c}");
    append_str(&mut r, source);
    append_str(&mut r, "\u{300d}\u{672a}\u{53d1}\u{73b0}\u{63d2}\u{4ef6}\u{6216} marketplace.json");
    r
}

/// The warning for a configured source whose folder is missing (its clone may have failed).
pub fn missing_source_warning(name: &str, path: &str) -> (r: String)
    ensures
        r@ == "\u{6e90}\u{300c}"@ + name@
            + "\u{300d}\u{8def}\u{5f84}\u{4e0d}\u{5b58}\u{5728}\u{ff08}clone \u{53ef}\u{80fd}\u{5931}\u{8d25}\u{ff0c}\u{8bf7}\u{68c0}\u{67e5}URL\u{662f}\u{5426}\u{6b63}\u{786e}\u{ff09}: "@
            + path@,
{
    let mut r = String::from_str("\u{6e90}\u{300c}");
    append_str(&mut r, name);
    append_str(
        &mut r,
        "\u{300d}\u{8def}\u{5f84}\u{4e0d}\u{5b58}\u{5728}\u{ff08}clone \u{53ef}\u{80fd}\u{5931}\u{8d25}\u{ff0c}\u{8bf7}\u{68c0}\u{67e5}URL\u{662f}\u{5426}\u{6b63}\u{786e}\u{ff09}: ",
    );
    append_str(&mut r, path);
    r
}

} // verus!
