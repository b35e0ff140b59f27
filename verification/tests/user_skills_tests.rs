use openloom::marketplace_sources::{clones_repository, is_git_kind, local_marketplace_source, source_entry, source_from_settings, sources_after_add, sources_without};
use openloom::skills::UserSkill;
use openloom::user_skills::{external_skill_folders, enabled_skills_key, external_skill_paths, list_user_skills, toggle_skill, DiscoveredExternalPath};

fn skill(name: &str, source: &str, label: Option<&str>) -> UserSkill {
    UserSkill {
        name: name.to_string(),
        description: format!("{} skill", name),
        file_path: format!("/s/{}/SKILL.md", name),
        base_dir: format!("/s/{}", name),
        source: source.to_string(),
        default_enabled: true,
        disable_model_invocation: false,
        external_label: label.map(|l| l.to_string()),
        external_path: label.map(|_| "/ext".to_string()),
        learned_agent_id: None,
    }
}

#[test]
fn merged_skill_rows() {
    let user = vec![skill("pdf", "user", None), skill("git", "user", None)];
    let learned = vec![skill("pdf", "learned", None), skill("notes", "learned", None)];
    let external = vec![skill("lint", "external", Some("plugin:acme")), skill("git", "external", Some("custom:/x"))];
    let enabled = vec!["git".to_string(), "lint".to_string()];
    let rows = list_user_skills(user, learned, external, &enabled);
    let names: Vec<&str> = rows.iter().map(|r| r.name.as_str()).collect();
    assert_eq!(names, vec!["pdf", "git", "notes", "lint"]);
    assert_eq!(rows[0].source, "user");
    assert!(!rows[0].enabled);
    assert!(rows[1].enabled);
    assert_eq!(rows[2].source, "learned");
    assert!(rows[2].external_label.is_none());
    assert_eq!(rows[3].source, "external");
    assert!(rows[3].readonly && rows[3].enabled);
    assert_eq!(rows[3].external_path.as_deref(), Some("/ext"));
}

fn found(dir: &str, label: &str, exists: bool) -> DiscoveredExternalPath {
    DiscoveredExternalPath { dir_path: dir.to_string(), label: label.to_string(), exists }
}

#[test]
fn external_folders_searched() {
    let configured = vec!["/a".to_string()];
    let discovered = vec![
        found("/a", "Codex", true),
        found("/b", "Agents", true),
        found("/c", "OpenClaw", false),
    ];
    assert_eq!(
        external_skill_paths(&configured, &discovered),
        vec![("/a".to_string(), "custom:/a".to_string()), ("/b".to_string(), "Agents".to_string())]
    );
}

#[test]
fn switching_skills_on_and_off() {
    let names = vec!["a".to_string(), "b".to_string(), "a".to_string()];
    assert_eq!(toggle_skill(names.clone(), "c", true), vec!["a", "b", "a", "c"]);
    assert_eq!(toggle_skill(names.clone(), "b", true), vec!["a", "b", "a"]);
    assert_eq!(toggle_skill(names, "a", false), vec!["b"]);
    assert_eq!(enabled_skills_key("main"), "settings.agent.main.skills.enabled");
}

#[test]
fn marketplace_source_settings() {
    assert!(clones_repository("https://github.com/a/b"));
    assert!(clones_repository("git@github.com:a/b"));
    assert!(!clones_repository("httpfoo/local"));
    assert!(is_git_kind("httpfoo/local"));
    assert!(!is_git_kind("/srv/market"));
    let s = source_from_settings(r#"{"url":"https://x/y","path":"/m/y"}"#);
    assert_eq!(s.kind, "local");
    assert_eq!(s.name, "Marketplace");
    assert_eq!(s.url.as_deref(), Some("https://x/y"));
    assert_eq!(s.path.as_deref(), Some("/m/y"));
    assert!(s.configured);
    let l = local_marketplace_source("/data/marketplace");
    assert_eq!(l.name, "Local Marketplace");
    assert_eq!(l.path.as_deref(), Some("/data/marketplace"));
    let items = vec![r#"{"name":"a","kind":"git"}"#.to_string(), r#"{"name":"b"}"#.to_string()];
    assert_eq!(sources_without(&items, "a"), vec![r#"{"name":"b"}"#.to_string()]);
    let after = sources_after_add(&items, "https://g/r", "b", "/m/b");
    assert_eq!(after.len(), 2);
    assert_eq!(after[1], r#"{"kind":"git","name":"b","path":"/m/b","url":"https://g/r"}"#);
    assert_eq!(source_entry("/srv/m", "loc", "/srv/m"), r#"{"kind":"local","name":"loc","path":"/srv/m","url":null}"#);
}

#[test]
fn tool_skill_folders_in_order() {
    assert_eq!(
        external_skill_folders(),
        vec![
            (".codex/skills", "Codex"),
            (".openclaw/skills", "OpenClaw"),
            (".pi/agent/skills", "Pi"),
            (".agents/skills", "Agents"),
        ]
    );
}
