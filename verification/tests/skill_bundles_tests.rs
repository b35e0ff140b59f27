use openloom::skill_bundles::{
    create_bundle, create_bundle_with, default_schema_version, delete_bundle, export_file_name, get_bundle_enabled,
    list_bundles, plan_export, random_suffix, reorder_bundles, reorder_bundles_with, sanitize_name,
    set_bundle_enabled, set_bundle_enabled_with, slugify, update_bundle, update_bundle_with, BundleError, BundleStore,
};

fn empty_store() -> BundleStore {
    BundleStore { schema_version: default_schema_version(), bundles: Vec::new() }
}

fn names(v: &[&str]) -> Vec<String> {
    v.iter().map(|s| s.to_string()).collect()
}

#[test]
fn schema_version_defaults_to_one() {
    assert_eq!(default_schema_version(), 1);
}

#[test]
fn slugify_lowercases_and_dashes() {
    assert_eq!(slugify("My Cool Bundle!"), "my-cool-bundle");
    assert_eq!(slugify("--Already-Slug--"), "already-slug");
    assert_eq!(slugify("***"), "");
    assert_eq!(slugify("Ünïcode Nämé"), "ünïcode-nämé");
}

#[test]
fn slugify_cuts_long_names_to_56_chars() {
    let long = "a".repeat(80);
    assert_eq!(slugify(&long), "a".repeat(56));
    let exact = "b".repeat(56);
    assert_eq!(slugify(&exact), exact);
}

#[test]
fn sanitize_name_replaces_unsafe_chars() {
    assert_eq!(sanitize_name("my skill/v2.0"), "my_skill_v2_0");
    assert_eq!(sanitize_name("ok-name_1"), "ok-name_1");
}

#[test]
fn random_suffix_is_six_hex_digits_or_more() {
    let s = random_suffix();
    assert!(s.len() >= 6 && s.len() <= 8);
    assert!(s.chars().all(|c| c.is_ascii_hexdigit() && !c.is_ascii_uppercase()));
}

#[test]
fn create_with_known_suffix_and_time() {
    let mut store = empty_store();
    let b = create_bundle_with(&mut store, "Writing Tools", names(&["a", "b"]), 0xab, "2024-01-01T00:00:00+00:00");
    assert_eq!(b.id, "writing-tools-0000ab");
    assert_eq!(b.name, "Writing Tools");
    assert_eq!(b.skill_names, names(&["a", "b"]));
    assert_eq!(b.source, "user");
    assert_eq!(b.created_at, "2024-01-01T00:00:00+00:00");
    assert_eq!(b.updated_at, b.created_at);
    assert!(b.enabled.is_empty());
    assert_eq!(store.bundles.len(), 1);
    assert_eq!(store.bundles[0].id, b.id);
}

#[test]
fn create_appends_with_random_suffix() {
    let mut store = empty_store();
    let a = create_bundle(&mut store, "One", vec![]);
    let b = create_bundle(&mut store, "Two", vec![]);
    assert!(a.id.starts_with("one-"));
    assert!(b.id.starts_with("two-"));
    let listed = list_bundles(store);
    assert_eq!(listed.len(), 2);
    assert_eq!(listed[0].name, "One");
    assert_eq!(listed[1].name, "Two");
}

#[test]
fn update_changes_given_fields_only() {
    let mut store = empty_store();
    let b = create_bundle_with(&mut store, "Old", names(&["x"]), 1, "t0");
    let u = update_bundle_with(&mut store, &b.id, Some("New"), None, "t1").unwrap();
    assert_eq!(u.name, "New");
    assert_eq!(u.skill_names, names(&["x"]));
    assert_eq!(u.created_at, "t0");
    assert_eq!(u.updated_at, "t1");
    assert_eq!(store.bundles[0].name, "New");
    let u2 = update_bundle(&mut store, &b.id, None, Some(names(&["y", "z"]))).unwrap();
    assert_eq!(u2.skill_names, names(&["y", "z"]));
    assert!(matches!(update_bundle(&mut store, "missing", None, None), Err(BundleError::NotFound)));
}

#[test]
fn delete_reports_whether_removed() {
    let mut store = empty_store();
    let a = create_bundle_with(&mut store, "A", vec![], 1, "t");
    let _b = create_bundle_with(&mut store, "B", vec![], 2, "t");
    assert!(delete_bundle(&mut store, &a.id));
    assert_eq!(store.bundles.len(), 1);
    assert_eq!(store.bundles[0].name, "B");
    assert!(!delete_bundle(&mut store, &a.id));
    assert_eq!(store.bundles.len(), 1);
}

#[test]
fn enabled_state_reads_back_per_agent() {
    let mut store = empty_store();
    let a = create_bundle_with(&mut store, "A", vec![], 1, "t");
    assert!(!get_bundle_enabled(&store, &a.id, "agent-1"));
    set_bundle_enabled_with(&mut store, &a.id, "agent-1", true, "t2").unwrap();
    assert!(get_bundle_enabled(&store, &a.id, "agent-1"));
    assert!(!get_bundle_enabled(&store, &a.id, "agent-2"));
    set_bundle_enabled(&mut store, &a.id, "agent-1", false).unwrap();
    assert!(!get_bundle_enabled(&store, &a.id, "agent-1"));
    assert_eq!(store.bundles[0].enabled.len(), 1);
    assert_eq!(set_bundle_enabled(&mut store, "nope", "agent-1", true), Err(BundleError::NotFound));
    assert!(!get_bundle_enabled(&store, "nope", "agent-1"));
}

#[test]
fn reorder_follows_given_ids() {
    let mut store = empty_store();
    let a = create_bundle_with(&mut store, "A", vec![], 1, "t");
    let b = create_bundle_with(&mut store, "B", vec![], 2, "t");
    let c = create_bundle_with(&mut store, "C", vec![], 3, "t");
    let order = vec![c.id.clone(), a.id.clone(), b.id.clone()];
    let v = reorder_bundles_with(&mut store, &order, "t9").unwrap();
    let ids: Vec<String> = v.iter().map(|x| x.id.clone()).collect();
    assert_eq!(ids, order);
    assert!(v.iter().all(|x| x.updated_at == "t9"));
    let stored: Vec<String> = store.bundles.iter().map(|x| x.id.clone()).collect();
    assert_eq!(stored, order);
}

#[test]
fn reorder_refuses_wrong_ids() {
    let mut store = empty_store();
    let a = create_bundle_with(&mut store, "A", vec![], 1, "t");
    let b = create_bundle_with(&mut store, "B", vec![], 2, "t");
    assert!(matches!(reorder_bundles(&mut store, &[a.id.clone()]), Err(BundleError::OrderLengthMismatch)));
    assert!(matches!(reorder_bundles(&mut store, &[a.id.clone(), a.id.clone()]), Err(BundleError::UnknownId)));
    assert!(matches!(reorder_bundles(&mut store, &[a.id.clone(), "zzz".to_string()]), Err(BundleError::UnknownId)));
    assert_eq!(store.bundles[0].id, a.id);
    assert_eq!(store.bundles[1].id, b.id);
    assert_eq!(BundleError::UnknownId.message(), "unknown bundle id");
    assert_eq!(BundleError::OrderLengthMismatch.message(), "bundle_ids must include every bundle exactly once");
}

#[test]
fn export_plan_splits_found_and_missing() {
    let skills = names(&["web search", "missing-one", "calc"]);
    let (exported, warnings) = plan_export(&skills, &vec![true, false, true]).unwrap();
    assert_eq!(exported.len(), 2);
    assert_eq!(exported[0].name, "web_search");
    assert_eq!(exported[0].path, "skills/web_search");
    assert_eq!(exported[1].name, "calc");
    assert_eq!(warnings.len(), 1);
    assert_eq!(warnings[0].kind, "missing-skill");
    assert_eq!(warnings[0].name, "missing-one");
    assert!(matches!(plan_export(&skills, &vec![false, false, false]), Err(BundleError::NothingToExport)));
}

#[test]
fn export_file_name_uses_slug() {
    assert_eq!(export_file_name("My Bundle"), "my-bundle-skillbundle.zip");
}
