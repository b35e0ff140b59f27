use openloom::plugin_fs::{
    contribution_paths, cross_reference_marketplace, dedup_by_id, detect_contributions, distribution_path,
    fallback_entry, find_manifest_in_dir, listed_plugin, loom_entry, manifest_kind, manifest_paths,
    offered_from_entry, parse_source, skip_plugin_dir, skip_source_subdir, slugify, universal_contributions,
    universal_dirs, universal_entry, EntrySource, LoomManifest, ManifestKind, MarketplaceEntry, MarketplaceOwner,
    MarketplacePlugin, PluginContributes, PluginEntry, UniversalInterface, UniversalManifest, UniversalSkillsRef,
};

fn entry(id: &str, version: &str) -> PluginEntry {
    fallback_entry(id, "/p", vec![]).with_version(version)
}

trait WithVersion {
    fn with_version(self, v: &str) -> Self;
}

impl WithVersion for PluginEntry {
    fn with_version(mut self, v: &str) -> Self {
        self.version = v.to_string();
        self
    }
}

fn offered(id: &str, latest: Option<&str>, compatible: bool) -> MarketplacePlugin {
    let mut mp = offered_from_entry(entry(id, "1.0.0"), "/m");
    mp.latest_version = latest.map(|s| s.to_string());
    mp.compatible = compatible;
    mp
}

#[test]
fn slug_of_plugin_names() {
    assert_eq!(slugify("My Plugin!"), "my-plugin");
    assert_eq!(slugify("-x-"), "x");
}

#[test]
fn first_present_manifest_wins() {
    let paths = manifest_paths();
    assert_eq!(paths[0], (".loom-plugin/plugin.json", "loom-plugin"));
    let n = paths.len();
    let mut present = vec![false; n];
    assert_eq!(find_manifest_in_dir(&present), None);
    present[n - 1] = true;
    assert_eq!(find_manifest_in_dir(&present).as_deref(), Some(paths[n - 1].1));
    present[0] = true;
    assert_eq!(find_manifest_in_dir(&present).as_deref(), Some("loom-plugin"));
}

#[test]
fn manifest_formats_map_to_readers() {
    assert_eq!(manifest_kind("loom"), Ok(ManifestKind::Loom));
    assert_eq!(manifest_kind("codex-plugin"), Ok(ManifestKind::Universal));
    assert_eq!(manifest_kind("other"), Err("unknown manifest format: other".to_string()));
}

#[test]
fn contributions_in_check_order() {
    let checks = contribution_paths();
    assert_eq!(checks.len(), 11);
    let mut present = vec![false; 11];
    present[7] = true;
    present[0] = true;
    assert_eq!(detect_contributions(&present), vec!["tools".to_string(), "lifecycle".to_string()]);
    assert_eq!(
        universal_contributions(true, false, true, true, false),
        vec!["skills".to_string(), "apps".to_string(), "hooks".to_string()]
    );
}

#[test]
fn native_entry_fills_defaults() {
    let m = LoomManifest {
        id: String::new(),
        name: String::new(),
        version: "2.0".into(),
        description: "d".into(),
        trust: String::new(),
        hidden: true,
        min_app_version: None,
        ui: None,
        contributes: Some(PluginContributes { configuration: Some("{}".into()) }),
    };
    let e = loom_entry(m, "folder", "/plugins/folder", vec!["tools".into()]);
    assert_eq!(e.id, "folder");
    assert_eq!(e.name, "folder");
    assert_eq!(e.trust, "restricted");
    assert_eq!(e.manifest_format, "loom");
    assert_eq!(e.config_schema.as_deref(), Some("{}"));
    assert!(e.hidden);
}

#[test]
fn universal_entry_prefers_interface() {
    let m = UniversalManifest {
        name: "Cool Tool".into(),
        version: String::new(),
        description: "plain".into(),
        author: String::new(),
        homepage: None,
        repository: Some("r".into()),
        license: None,
        keywords: vec![],
        skills: Some(UniversalSkillsRef { path: Some("sk".into()) }),
        mcp_servers: None,
        apps: None,
        hooks: None,
        interface: Some(UniversalInterface {
            display_name: Some("Cool".into()),
            short_description: None,
            developer_name: None,
            category: Some("dev".into()),
            capabilities: vec![],
            brand_color: None,
        }),
    };
    let (s, mcp, apps) = universal_dirs(&m);
    assert_eq!((s.as_str(), mcp.as_str(), apps.as_str()), ("sk", "mcp-servers", "apps"));
    let e = universal_entry(m, "/p/cool", "codex-plugin", vec![]);
    assert_eq!(e.id, "cool-tool");
    assert_eq!(e.name, "Cool");
    assert_eq!(e.version, "0.1.0");
    assert_eq!(e.description, "plain");
    assert_eq!(e.author, None);
    assert_eq!(e.category.as_deref(), Some("dev"));
    assert_eq!(e.manifest_format, "codex-plugin");
}

#[test]
fn folders_passed_over() {
    assert!(skip_plugin_dir(".git") && skip_plugin_dir("cache") && skip_plugin_dir("data"));
    assert!(!skip_plugin_dir("my-plugin"));
    assert!(skip_source_subdir("tests") && skip_source_subdir(".github") && skip_source_subdir("plugins"));
    assert!(!skip_source_subdir("tools"));
}

#[test]
fn listing_sources_are_read() {
    assert_eq!(parse_source(&None), (None, true, None));
    assert_eq!(parse_source(&Some(EntrySource::Text("./plugins/a".into()))), (Some("./plugins/a".to_string()), false, None));
    assert_eq!(parse_source(&Some(EntrySource::Text("https://x".into()))), (None, true, Some("https://x".to_string())));
    assert_eq!(parse_source(&Some(EntrySource::Text("weird".into()))), (None, true, None));
    assert_eq!(
        parse_source(&Some(EntrySource::Other { source_type: Some("url".into()), url: Some("u".into()) })),
        (None, true, Some("u".to_string()))
    );
}

#[test]
fn listed_plugin_uses_loaded_manifest() {
    let owner = Some(MarketplaceOwner { name: "Org".into() });
    let e = MarketplaceEntry {
        name: "Nice Plugin".into(),
        description: String::new(),
        version: Some("0.9".into()),
        author: None,
        category: None,
        homepage: None,
        source: None,
    };
    let remote = listed_plugin(&owner, &e, None, true, Some("https://r".into()), None);
    assert_eq!(remote.id, "nice-plugin");
    assert_eq!(remote.publisher.as_deref(), Some("Org"));
    assert_eq!(remote.install_action, "incompatible");
    assert!(!remote.can_install);
    assert_eq!(remote.trust, "restricted");
    let mut pe = entry("nice", "1.2");
    pe.description = "from manifest".into();
    let local = listed_plugin(&owner, &e, Some("/repo/plugins/nice".into()), false, None, Some(pe));
    assert_eq!(local.version.as_deref(), Some("1.2"));
    assert_eq!(local.latest_version.as_deref(), Some("1.2"));
    assert_eq!(local.description.as_deref(), Some("from manifest"));
    assert_eq!(local.install_action, "install");
    assert_eq!(local.distribution.as_ref().map(|d| d.path.as_str()), Some("/repo/plugins/nice"));
}

#[test]
fn cross_reference_sets_install_actions() {
    let installed = vec![entry("a", "1.0.0"), entry("b", "2.0.0")];
    let mut offers = vec![offered("a", Some("1.1.0"), true), offered("b", Some("2.0.0"), true), offered("c", None, false)];
    cross_reference_marketplace(&mut offers, &installed);
    assert!(offers[0].installed && offers[0].update_available);
    assert_eq!(offers[0].install_action, "update");
    assert_eq!(offers[0].installed_version.as_deref(), Some("1.0.0"));
    assert_eq!(offers[1].install_action, "reinstall");
    assert!(!offers[1].update_available);
    assert!(!offers[2].installed);
    assert_eq!(offers[2].install_action, "install");
    assert!(offers[2].compatible && offers[2].can_install);
}

#[test]
fn incompatible_installed_offer() {
    let installed = vec![entry("a", "1.0.0")];
    let mut offers = vec![offered("a", Some("2.0"), false)];
    cross_reference_marketplace(&mut offers, &installed);
    assert_eq!(offers[0].install_action, "incompatible");
    assert!(!offers[0].can_install);
}

#[test]
fn dedup_keeps_first_of_each_id() {
    let v = vec![offered("a", None, true), offered("b", None, true), offered("a", Some("9"), true)];
    let d = dedup_by_id(v);
    assert_eq!(d.len(), 2);
    assert_eq!(d[0].id, "a");
    assert_eq!(d[0].latest_version, None);
    assert_eq!(d[1].id, "b");
}

#[test]
fn distribution_path_or_error() {
    let mp = offered("a", None, true);
    assert_eq!(distribution_path(&mp), Ok("/m".to_string()));
    let mut none = offered("b", None, true);
    none.distribution = None;
    assert_eq!(distribution_path(&none), Err("no distribution path".to_string()));
}

#[test]
fn installing_from_the_marketplace_finds_the_folder() {
    use_find_distribution();
}

fn use_find_distribution() {
    let a = offered("a", Some("1.0.0"), true);
    let mut b = offered("b", None, true);
    b.distribution = None;
    let b2 = offered("b", None, true);
    let plugins = vec![a, b, b2];
    assert!(openloom::marketplace_sources::find_distribution(&plugins, "a").is_ok());
    assert_eq!(
        openloom::marketplace_sources::find_distribution(&plugins, "b"),
        Err("marketplace plugin not found: b".to_string())
    );
    assert_eq!(
        openloom::marketplace_sources::find_distribution(&plugins, "zzz"),
        Err("marketplace plugin not found: zzz".to_string())
    );
}
