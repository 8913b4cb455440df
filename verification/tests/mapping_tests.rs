//! Tests of the mapping resolver: base prefixes, target mapping, and
//! rule matching through the glob engine.

use repoflow::diff::DiffEngine;
use repoflow::mapping::{map_target_relative, normalize_separators, MappingRule};
use repoflow::route_tree::test_route_mapping;

fn rule(source: &str, target: &str, mode: &str) -> MappingRule {
    MappingRule {
        source: source.to_string(),
        target: target.to_string(),
        mode: mode.to_string(),
    }
}

#[test]
fn base_prefix_of_pattern_with_directory_wildcard() {
    assert_eq!(DiffEngine::extract_glob_base("src/**/*.vue"), "src/");
}

#[test]
fn base_prefix_of_pattern_starting_with_wildcard_is_empty() {
    assert_eq!(DiffEngine::extract_glob_base("**/*.ts"), "");
    assert_eq!(DiffEngine::extract_glob_base("*.ts"), "");
}

#[test]
fn base_prefix_of_deep_literal_directory() {
    assert_eq!(DiffEngine::extract_glob_base("lib/components/*.vue"), "lib/components/");
}

#[test]
fn base_prefix_without_wildcard_gets_trailing_separator() {
    // A rule with no wildcard is treated as a directory prefix: the
    // computed base equals the rule's path with a trailing separator.
    assert_eq!(DiffEngine::extract_glob_base("docs"), "docs/");
    assert_eq!(DiffEngine::extract_glob_base("docs/assets"), "docs/assets/");
    assert_eq!(DiffEngine::extract_glob_base("docs/"), "docs/");
    assert_eq!(DiffEngine::extract_glob_base(""), "/");
}

#[test]
fn maps_source_file_into_target_prefix() {
    // Rule `src/**/*.ts` -> target `dest/`: file `src/a/b.ts` maps to
    // `dest/a/b.ts`.
    let base_src = DiffEngine::extract_glob_base("src/**/*.ts");
    let base_dst = DiffEngine::extract_glob_base("dest/");
    assert_eq!(base_src, "src/");
    assert_eq!(base_dst, "dest/");
    assert_eq!(map_target_relative(&base_src, &base_dst, "src/a/b.ts"), "dest/a/b.ts");
}

#[test]
fn maps_unprefixed_path_by_prepending_target_base() {
    assert_eq!(map_target_relative("src/", "dest/", "other/c.ts"), "dest/other/c.ts");
}

#[test]
fn rule_test_reports_first_matching_rule() {
    let rules = vec![
        rule("docs/*.md", "", "copy"),
        rule("src/**/*.ts", "dest/", "copy"),
    ];
    let r = test_route_mapping("src/a/b.ts", &rules);
    assert!(r.matched);
    assert_eq!(r.rule_index, Some(1));
    // The reported target is the resolved mapping, source base replaced
    // by target base.
    assert_eq!(r.target_path.as_deref(), Some("dest/a/b.ts"));
}

#[test]
fn rule_test_reports_no_match() {
    let rules = vec![rule("docs/*.md", "", "copy")];
    let r = test_route_mapping("src/a/b.ts", &rules);
    assert!(!r.matched);
    assert_eq!(r.rule_index, None);
    assert_eq!(r.target_path, None);
}

#[test]
fn rule_test_skips_ill_formed_globs() {
    // An unmatched bracket does not compile; the next rule still applies.
    let rules = vec![rule("[", "", "copy"), rule("*.ts", "out/", "copy")];
    let r = test_route_mapping("a.ts", &rules);
    assert!(r.matched);
    assert_eq!(r.rule_index, Some(1));
    assert_eq!(r.target_path.as_deref(), Some("out/a.ts"));
}

#[test]
fn separators_are_normalized_before_matching() {
    assert_eq!(normalize_separators("src\\a\\b.ts"), "src/a/b.ts");
    assert_eq!(normalize_separators("src/a/b.ts"), "src/a/b.ts");
    assert_eq!(normalize_separators(""), "");
}
