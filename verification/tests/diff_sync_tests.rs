//! Tests of the diff engine and the sync executor over in-memory trees.

use repoflow::diff::{ChangeType, DiffEngine, FileChange};
use repoflow::mapping::MappingRule;
use repoflow::sync::SyncEngine;
use repoflow::tree::{FileEntry, FileTree};

fn rule(source: &str, target: &str, mode: &str) -> MappingRule {
    MappingRule {
        source: source.to_string(),
        target: target.to_string(),
        mode: mode.to_string(),
    }
}

fn tree(files: &[(&str, &[u8])]) -> FileTree {
    let mut t = FileTree { files: Vec::new() };
    for (path, data) in files {
        t.files.push(FileEntry { path: path.to_string(), data: data.to_vec() });
    }
    t
}

#[test]
fn scan_classifies_missing_target_as_added() {
    let source = tree(&[("src/a.ts", b"alpha")]);
    let target = tree(&[]);
    let rules = vec![rule("src/**/*.ts", "dest/", "copy")];
    let summary = DiffEngine::scan_changes_with_roots(&source, &target, &rules).unwrap();
    assert_eq!(summary.changes.len(), 1);
    let c = &summary.changes[0];
    assert_eq!(c.path, "src/a.ts");
    assert!(matches!(c.change_type, ChangeType::Added));
    assert_eq!(c.source_path.as_deref(), Some("src/a.ts"));
    assert_eq!(c.target_path.as_deref(), Some("dest/a.ts"));
}

#[test]
fn scan_classifies_different_sizes_as_modified() {
    let source = tree(&[("src/a.ts", b"longer content")]);
    let target = tree(&[("dest/a.ts", b"short")]);
    let rules = vec![rule("src/**/*.ts", "dest/", "copy")];
    let summary = DiffEngine::scan_changes_with_roots(&source, &target, &rules).unwrap();
    assert_eq!(summary.changes.len(), 1);
    assert!(matches!(summary.changes[0].change_type, ChangeType::Modified));
}

#[test]
fn equal_size_different_content_is_modified() {
    // The size fast path never hides a change: same length, different
    // bytes is still classified as modified.
    let source = tree(&[("src/a.ts", b"aaaa")]);
    let target = tree(&[("dest/a.ts", b"bbbb")]);
    let rules = vec![rule("src/**/*.ts", "dest/", "copy")];
    let summary = DiffEngine::scan_changes_with_roots(&source, &target, &rules).unwrap();
    assert_eq!(summary.changes.len(), 1);
    assert!(matches!(summary.changes[0].change_type, ChangeType::Modified));
}

#[test]
fn identical_files_are_left_out_of_the_change_set() {
    let source = tree(&[("src/a.ts", b"same")]);
    let target = tree(&[("dest/a.ts", b"same")]);
    let rules = vec![rule("src/**/*.ts", "dest/", "copy")];
    let summary = DiffEngine::scan_changes_with_roots(&source, &target, &rules).unwrap();
    assert_eq!(summary.changes.len(), 0);
}

#[test]
fn ignore_rules_are_skipped() {
    let source = tree(&[("src/a.ts", b"alpha")]);
    let target = tree(&[]);
    let rules = vec![rule("src/**/*.ts", "dest/", "ignore")];
    let summary = DiffEngine::scan_changes_with_roots(&source, &target, &rules).unwrap();
    assert_eq!(summary.changes.len(), 0);
}

#[test]
fn a_path_is_processed_once_across_rules() {
    let source = tree(&[("src/a.ts", b"alpha")]);
    let target = tree(&[]);
    let rules = vec![
        rule("src/**/*.ts", "dest/", "copy"),
        rule("src/*.ts", "other/", "copy"),
    ];
    let summary = DiffEngine::scan_changes_with_roots(&source, &target, &rules).unwrap();
    assert_eq!(summary.changes.len(), 1);
    assert_eq!(summary.changes[0].target_path.as_deref(), Some("dest/a.ts"));
}

#[test]
fn an_ill_formed_glob_aborts_the_scan() {
    let source = tree(&[("src/a.ts", b"alpha")]);
    let target = tree(&[]);
    let rules = vec![rule("[", "dest/", "copy")];
    let err = DiffEngine::scan_changes_with_roots(&source, &target, &rules).unwrap_err();
    assert_eq!(err, "Invalid glob pattern: [");
}

#[test]
fn empty_target_prefix_reuses_source_base() {
    let source = tree(&[("src/a.ts", b"alpha")]);
    let target = tree(&[]);
    let rules = vec![rule("src/*.ts", "", "copy")];
    let summary = DiffEngine::scan_changes_with_roots(&source, &target, &rules).unwrap();
    assert_eq!(summary.changes[0].target_path.as_deref(), Some("src/a.ts"));
}

#[test]
fn apply_copies_added_file_byte_for_byte() {
    // A file present only in the source exists in the target with
    // identical bytes after apply.
    let source = tree(&[("src/a.bin", &[0u8, 159, 146, 150])]);
    let mut target = tree(&[]);
    let rules = vec![rule("src/*.bin", "out/", "copy")];
    let summary = DiffEngine::scan_changes_with_roots(&source, &target, &rules).unwrap();
    let result = SyncEngine::execute_sync("r1", &source, &mut target, &summary.changes);
    assert_eq!(result.success_count, 1);
    assert_eq!(result.fail_count, 0);
    let copied = target.lookup("out/a.bin").expect("file must exist after apply");
    assert_eq!(copied.as_slice(), &[0u8, 159, 146, 150]);
}

#[test]
fn apply_then_scan_finds_nothing_left() {
    // Idempotence: after applying one scan's changes, a second scan of
    // the same trees yields no added or modified entries.
    let source = tree(&[
        ("src/a.ts", b"alpha"),
        ("src/deep/b.ts", b"beta"),
        ("README.md", b"top"),
    ]);
    let mut target = tree(&[("dest/a.ts", b"stale")]);
    let rules = vec![
        rule("src/**/*.ts", "dest/", "copy"),
        rule("*.md", "docs/", "copy"),
    ];
    let first = DiffEngine::scan_changes_with_roots(&source, &target, &rules).unwrap();
    assert_eq!(first.changes.len(), 3);
    SyncEngine::execute_sync("r1", &source, &mut target, &first.changes);
    let second = DiffEngine::scan_changes_with_roots(&source, &target, &rules).unwrap();
    assert_eq!(second.changes.len(), 0);
}

#[test]
fn sync_log_records_each_action_and_the_totals() {
    let source = tree(&[("a.txt", b"data")]);
    let mut target = tree(&[]);
    let rules = vec![rule("*.txt", "out/", "copy")];
    let summary = DiffEngine::scan_changes_with_roots(&source, &target, &rules).unwrap();
    let result = SyncEngine::execute_sync("main route", &source, &mut target, &summary.changes);
    assert_eq!(
        result.logs,
        "Syncing Route: main route\n[OK] Copied a.txt -> out/a.txt\nSync Completed. Success: 1, Failed: 0\n"
    );
}

#[test]
fn deleted_entries_are_reported_but_never_acted_on() {
    let source = tree(&[]);
    let mut target = tree(&[("out/old.txt", b"keep me")]);
    let changes = vec![FileChange {
        path: "out/old.txt".to_string(),
        change_type: ChangeType::Deleted,
        source_path: None,
        target_path: None,
    }];
    let result = SyncEngine::execute_sync("r", &source, &mut target, &changes);
    assert_eq!(result.success_count, 0);
    assert_eq!(result.fail_count, 0);
    assert!(result.logs.contains("[SKIP] Deletion detected but not enabled for out/old.txt"));
    assert!(target.lookup("out/old.txt").is_some());
}

#[test]
fn unchanged_entries_are_logged_as_skipped() {
    let source = tree(&[("a.txt", b"same")]);
    let mut target = tree(&[("a.txt", b"same")]);
    let changes = vec![FileChange {
        path: "a.txt".to_string(),
        change_type: ChangeType::Unchanged,
        source_path: None,
        target_path: None,
    }];
    let result = SyncEngine::execute_sync("r", &source, &mut target, &changes);
    assert_eq!(result.success_count, 0);
    assert_eq!(result.fail_count, 0);
    assert!(result.logs.contains("[SKIP] Unchanged a.txt"));
}

#[test]
fn a_missing_source_is_counted_as_a_failed_copy() {
    let source = tree(&[]);
    let mut target = tree(&[]);
    let changes = vec![FileChange {
        path: "ghost.txt".to_string(),
        change_type: ChangeType::Added,
        source_path: Some("ghost.txt".to_string()),
        target_path: Some("out/ghost.txt".to_string()),
    }];
    let result = SyncEngine::execute_sync("r", &source, &mut target, &changes);
    assert_eq!(result.success_count, 0);
    assert_eq!(result.fail_count, 1);
    assert!(result.logs.contains("[ERR] Missing source ghost.txt"));
}
