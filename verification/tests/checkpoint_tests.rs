use openloom::download::{download_url, files_from_listing, listing_url, should_download, should_report_progress};
use openloom::checkpoint::{
    checkpoint_file_name, checkpoint_id, checkpoint_id_of_file, cleanup_cutoff, exceeds_size_limit, has_nul,
    is_expired, is_skipped_extension, order_checkpoints, CheckpointMeta,
};
use openloom::checkpoint::{capture_entry, CheckpointEntry};

fn meta(id: &str, ts: u64) -> CheckpointMeta {
    CheckpointMeta {
        id: id.to_string(),
        ts,
        tool: "file_edit".to_string(),
        path: "/tmp/a.rs".to_string(),
        size: 10,
        session_path: None,
        reason: None,
    }
}

#[test]
fn which_files_get_checkpoints() {
    assert!(is_skipped_extension("PNG"));
    assert!(is_skipped_extension("woff2"));
    assert!(!is_skipped_extension("rs"));
    assert!(!is_skipped_extension(""));
    assert!(exceeds_size_limit(1025, 1));
    assert!(!exceeds_size_limit(1024, 1));
    assert!(has_nul("a\u{0}b"));
    assert!(!has_nul("plain text"));
}

#[test]
fn checkpoint_names() {
    assert_eq!(checkpoint_id(1700000000123, "1a2b3c4d"), "1700000000123_1a2b3c4d");
    assert_eq!(checkpoint_file_name("17_ab"), "17_ab.json");
    assert_eq!(checkpoint_id_of_file("17_ab.json").as_deref(), Some("17_ab"));
    assert_eq!(checkpoint_id_of_file(".json"), None);
    assert_eq!(checkpoint_id_of_file("17_ab.json.tmp"), None);
    assert_eq!(checkpoint_id_of_file("notes.txt"), None);
}

#[test]
fn listing_is_newest_first_and_stable() {
    let ordered = order_checkpoints(vec![meta("a", 5), meta("b", 9), meta("c", 5), meta("d", 1)]);
    let ids: Vec<&str> = ordered.iter().map(|m| m.id.as_str()).collect();
    assert_eq!(ids, vec!["b", "a", "c", "d"]);
    assert!(order_checkpoints(Vec::new()).is_empty());
}

#[test]
fn cleanup_times() {
    assert_eq!(cleanup_cutoff(1_000_000_000, 7), 1_000_000_000 - 7 * 86_400_000);
    assert_eq!(cleanup_cutoff(86_400_000, 1), 0);
    assert!(is_expired(4, 5));
    assert!(!is_expired(5, 5));
}

#[test]
fn model_download_listing() {
    assert_eq!(
        listing_url("qwen/Qwen3-1.7B-GGUF"),
        "https://www.modelscope.cn/api/v1/models/qwen/Qwen3-1.7B-GGUF/repo/files?Revision=master&Recursive=True"
    );
    assert_eq!(
        download_url("qwen/Q", "m.gguf"),
        "https://www.modelscope.cn/api/v1/models/qwen/Q/repo?Revision=master&FilePath=m.gguf"
    );
    let body = r#"{"Data":{"Files":[
        {"Name":"big.gguf","Size":900},
        {"Name":"README.md"},
        {"Name":"small.gguf","Size":10},
        {"Name":"same.gguf","Size":900}
    ]}}"#;
    let files = files_from_listing(body, "r").ok().unwrap();
    let names: Vec<(&str, u64)> = files.iter().map(|f| (f.name.as_str(), f.size)).collect();
    assert_eq!(names, vec![("small.gguf", 10), ("big.gguf", 900), ("same.gguf", 900)]);
    assert_eq!(
        files_from_listing(r#"{"Data":{}}"#, "r").err().unwrap(),
        "Unexpected API response: missing Data.Files array"
    );
    assert_eq!(files_from_listing(r#"{"Data":{"Files":[{"Name":"x"}]}}"#, "q/r").err().unwrap(), "No files found in repo 'q/r'");
    assert!(should_report_progress(10 * 1024 * 1024, 0));
    assert!(!should_report_progress(10 * 1024 * 1024 - 1, 0));
    assert!(should_download(false, false));
    assert!(should_download(true, true));
    assert!(!should_download(true, false));
}

#[test]
fn capture_keeps_text_and_refuses_binary() {
    let e: CheckpointEntry =
        capture_entry(1700, "edit_file", "/p/a.rs", 12, "fn main() {}".to_string(), Some("/s/1"), None).unwrap();
    assert_eq!(e.ts, 1700);
    assert_eq!(e.tool, "edit_file");
    assert_eq!(e.path, "/p/a.rs");
    assert_eq!(e.size, 12);
    assert_eq!(e.content, "fn main() {}");
    assert_eq!(e.session_path.as_deref(), Some("/s/1"));
    assert_eq!(e.reason, None);
    assert!(capture_entry(1, "t", "/p/b.bin", 3, "a\0b".to_string(), None, None).is_none());
}

#[test]
fn entry_lists_and_restores() {
    let e = capture_entry(5, "write_file", "/p/x.txt", 2, "hi".to_string(), None, Some("before write")).unwrap();
    let m = capture_entry(5, "write_file", "/p/x.txt", 2, "hi".to_string(), None, Some("before write"))
        .unwrap()
        .meta("5_abcd1234".to_string());
    assert_eq!(m.id, "5_abcd1234");
    assert_eq!(m.ts, 5);
    assert_eq!(m.tool, "write_file");
    assert_eq!(m.path, "/p/x.txt");
    assert_eq!(m.size, 2);
    assert_eq!(m.reason.as_deref(), Some("before write"));
    let r = e.restored();
    assert_eq!(r.path, "/p/x.txt");
    assert_eq!(r.content, "hi");
}
