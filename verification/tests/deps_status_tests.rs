//! Tests of the dependency drift scanner and the repository status
//! classification.

use repoflow::deps::DependencyScanner;
use repoflow::status::classify_repo_status;

#[test]
fn severity_compares_the_first_differing_number() {
    assert_eq!(DependencyScanner::analyze_severity("^1.2.3", "2.0.0"), "Major");
    assert_eq!(DependencyScanner::analyze_severity("~1.2.3", "1.3.0"), "Minor");
    assert_eq!(DependencyScanner::analyze_severity("=1.2.3", "v1.2.4"), "Patch");
    assert_eq!(DependencyScanner::analyze_severity("1.2.3", "1.2.3"), "Unknown");
    assert_eq!(DependencyScanner::analyze_severity("latest", "1.2.3"), "Unknown");
}

#[test]
fn major_drift_in_dependencies_is_reported() {
    let src = r#"{"dependencies": {"left": "^1.0.0", "same": "2.0.0"}}"#;
    let tgt = r#"{"dependencies": {"left": "^2.1.0", "same": "2.0.0"}}"#;
    let warnings = DependencyScanner::scan(Some(src), Some(tgt)).unwrap();
    assert_eq!(warnings.len(), 1);
    assert_eq!(warnings[0].package_name, "left");
    assert_eq!(warnings[0].source_version, "^1.0.0");
    assert_eq!(warnings[0].target_version, "^2.1.0");
    assert_eq!(warnings[0].severity, "Major");
}

#[test]
fn minor_drift_is_not_reported() {
    let src = r#"{"dependencies": {"pkg": "1.2.0"}}"#;
    let tgt = r#"{"dependencies": {"pkg": "1.9.0"}}"#;
    let warnings = DependencyScanner::scan(Some(src), Some(tgt)).unwrap();
    assert!(warnings.is_empty());
}

#[test]
fn dev_dependencies_are_compared_too() {
    let src = r#"{"devDependencies": {"tool": "3.0.0"}}"#;
    let tgt = r#"{"devDependencies": {"tool": "4.0.0"}}"#;
    let warnings = DependencyScanner::scan(Some(src), Some(tgt)).unwrap();
    assert_eq!(warnings.len(), 1);
    assert_eq!(warnings[0].package_name, "tool");
}

#[test]
fn missing_documents_or_sections_yield_no_warnings() {
    assert!(DependencyScanner::scan(None, None).unwrap().is_empty());
    assert!(DependencyScanner::scan(Some("{}"), Some("{}")).unwrap().is_empty());
    let src = r#"{"dependencies": {"pkg": "1.0.0"}}"#;
    assert!(DependencyScanner::scan(Some(src), Some("not json")).unwrap().is_empty());
}

#[test]
fn packages_only_one_side_declares_are_ignored() {
    let src = r#"{"dependencies": {"only-here": "1.0.0"}}"#;
    let tgt = r#"{"dependencies": {"only-there": "9.0.0"}}"#;
    assert!(DependencyScanner::scan(Some(src), Some(tgt)).unwrap().is_empty());
}

#[test]
fn status_label_follows_the_counters() {
    let s = classify_repo_status("1".into(), "r".into(), "/p".into(), 1, 1, 0);
    assert_eq!(s.status, "Diverged");
    assert_eq!(s.short_summary, "1\u{2193} 1\u{2191}");
    let s = classify_repo_status("1".into(), "r".into(), "/p".into(), 2, 0, 0);
    assert_eq!(s.status, "Ahead");
    assert_eq!(s.short_summary, "2\u{2191}");
    let s = classify_repo_status("1".into(), "r".into(), "/p".into(), 0, 3, 0);
    assert_eq!(s.status, "Behind");
    assert_eq!(s.short_summary, "3\u{2193}");
    let s = classify_repo_status("1".into(), "r".into(), "/p".into(), 0, 0, 2);
    assert_eq!(s.status, "Uncommitted");
    assert_eq!(s.short_summary, "2 M");
    let s = classify_repo_status("1".into(), "r".into(), "/p".into(), 0, 0, 0);
    assert_eq!(s.status, "Clean");
    assert_eq!(s.short_summary, "\u{2713}");
}

#[test]
fn full_summary_joins_all_three_parts() {
    let s = classify_repo_status("1".into(), "r".into(), "/p".into(), 1, 3, 2);
    assert_eq!(s.status, "Diverged");
    assert_eq!(s.short_summary, "3\u{2193} 1\u{2191} 2 M");
}
