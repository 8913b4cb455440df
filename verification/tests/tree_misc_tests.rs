//! Tests of the tree builders, URL grouping, glob previews, editors,
//! tasks, the AI helpers and the weekly report.

use repoflow::ai::{AIService, ChatResponse, Choice, Message};
use repoflow::ide::detect_installed_ides;
use repoflow::diff::DiffEngine;
use repoflow::repo_scan::{group_segments, parse_git_url_segments, path_group_segments,
    scan_keeps_entry, GroupingMode, ScannedRepo};
use repoflow::repo_tree::{self, RepoGroupRecord, RepoRecord};
use repoflow::report::{format_weekly_report, summarize_logs, CommitSummary, SyncSummary};
use repoflow::route_tree::{self, limit_glob_matches, RouteGroupRecord, RouteRecord};
use repoflow::tasks::{steps_for_insert, TaskExecutionLogRecord, TaskStepDTO};

#[test]
fn repo_tree_nests_groups_and_buckets_orphans() {
    let groups = vec![
        RepoGroupRecord {
            id: "g1".into(),
            name: "work".into(),
            parent_id: None,
            sort_order: 0,
        },
        RepoGroupRecord {
            id: "g2".into(),
            name: "inner".into(),
            parent_id: Some("g1".into()),
            sort_order: 0,
        },
    ];
    let repos = vec![
        RepoRecord {
            id: "r1".into(),
            name: "nested".into(),
            local_path: "/a".into(),
            group_id: Some("g2".into()),
            pinned: false,
        },
        RepoRecord {
            id: "r2".into(),
            name: "loose".into(),
            local_path: "/b".into(),
            group_id: None,
            pinned: true,
        },
    ];
    let tree = repo_tree::build_tree(&groups, &repos, None);
    assert_eq!(tree.len(), 2);
    assert_eq!(tree[0].id, "g1");
    assert_eq!(tree[0].children.len(), 1);
    assert_eq!(tree[0].children[0].id, "g2");
    assert_eq!(tree[0].children[0].repos.len(), 1);
    assert_eq!(tree[0].children[0].repos[0].name, "nested");
    assert_eq!(tree[1].id, "root_virtual");
    assert_eq!(tree[1].name, "Uncategorized");
    assert_eq!(tree[1].repos.len(), 1);
    assert_eq!(tree[1].repos[0].name, "loose");
    assert!(tree[1].repos[0].pinned);
}

#[test]
fn route_tree_nests_groups_and_buckets_orphans() {
    let groups = vec![RouteGroupRecord {
        id: "g1".into(),
        name: "flows".into(),
        parent_id: None,
        sort_order: 0,
    }];
    let routes = vec![
        RouteRecord {
            id: "r1".into(),
            name: "grouped".into(),
            group_id: Some("g1".into()),
            main_repo_id: Some("a".into()),
            slave_repo_id: Some("b".into()),
        },
        RouteRecord {
            id: "r2".into(),
            name: "loose".into(),
            group_id: None,
            main_repo_id: None,
            slave_repo_id: None,
        },
    ];
    let tree = route_tree::build_tree(&groups, &routes, None);
    assert_eq!(tree.len(), 2);
    assert_eq!(tree[0].routes.len(), 1);
    assert_eq!(tree[0].routes[0].source_id.as_deref(), Some("a"));
    assert_eq!(tree[1].id, "route_root_virtual");
    assert_eq!(tree[1].routes[0].name, "loose");
}

#[test]
fn ssh_remote_urls_group_by_host_and_owner() {
    assert_eq!(
        parse_git_url_segments("git@github.com:acme/widget.git"),
        vec!["github.com".to_string(), "acme".to_string()]
    );
}

#[test]
fn http_remote_urls_group_by_path_segments() {
    assert_eq!(
        parse_git_url_segments("https://github.com/acme/widget.git"),
        vec!["github.com".to_string(), "acme".to_string()]
    );
    assert_eq!(
        parse_git_url_segments("gitlab.example.org/team/widget"),
        vec!["gitlab.example.org".to_string(), "team".to_string()]
    );
}

#[test]
fn path_grouping_uses_the_parent_folders() {
    assert_eq!(
        path_group_segments("clients/acme/widget"),
        vec!["clients".to_string(), "acme".to_string()]
    );
    assert!(path_group_segments("widget").is_empty());
    let repo = ScannedRepo {
        path: "/root/clients/acme/widget".into(),
        name: "widget".into(),
        relative_path: "clients/acme/widget".into(),
        remote_url: None,
    };
    // With URL grouping but no remote, the path layout is the fallback.
    assert_eq!(
        group_segments(&GroupingMode::GitUrl, &repo),
        vec!["clients".to_string(), "acme".to_string()]
    );
}

#[test]
fn glob_preview_is_ordered_counted_and_capped() {
    let few = vec!["b.txt".to_string(), "a.txt".to_string(), "c/a.txt".to_string()];
    let r = limit_glob_matches(&few);
    assert_eq!(r.total, 3);
    assert_eq!(r.matches, vec!["a.txt".to_string(), "b.txt".to_string(), "c/a.txt".to_string()]);
    let mut many: Vec<String> = Vec::new();
    for i in 0..205 {
        many.push(format!("file{:03}.txt", i));
    }
    let r = limit_glob_matches(&many);
    assert_eq!(r.total, 205);
    assert_eq!(r.matches.len(), 200);
    assert_eq!(r.matches[0], "file000.txt");
    assert_eq!(r.matches[199], "file199.txt");
}

#[test]
fn directory_walks_prune_hidden_and_build_folders() {
    assert!(DiffEngine::walk_keeps_entry("src"));
    assert!(!DiffEngine::walk_keeps_entry(".git"));
    assert!(!DiffEngine::walk_keeps_entry("node_modules"));
    assert!(!DiffEngine::walk_keeps_entry("target"));
    assert!(!DiffEngine::walk_keeps_entry("dist"));
    assert!(scan_keeps_entry("src"));
    assert!(scan_keeps_entry(".git"));
    assert!(!scan_keeps_entry("node_modules"));
    assert!(!scan_keeps_entry(".trash"));
    assert!(!scan_keeps_entry("build"));
}

#[test]
fn detected_editors_come_from_the_fixed_candidate_list() {
    let known = ["code", "cursor", "subl", "idea", "webstorm"];
    let ides = detect_installed_ides();
    assert!(ides.len() <= 5);
    for ide in &ides {
        assert!(known.contains(&ide.command.as_str()));
        assert!(ide.icon.is_none());
    }
}

#[test]
fn edited_steps_are_stored_in_order() {
    let steps = vec![
        TaskStepDTO { id: None, action_type: "script".into(), params: "{}".into() },
        TaskStepDTO { id: Some(7), action_type: "git".into(), params: "{\"x\":1}".into() },
    ];
    let rows = steps_for_insert("task-9", &steps);
    assert_eq!(rows.len(), 2);
    assert_eq!(rows[0].task_id.as_deref(), Some("task-9"));
    assert_eq!(rows[0].step_order, 0);
    assert_eq!(rows[0].action_type, "script");
    assert_eq!(rows[1].step_order, 1);
    assert_eq!(rows[1].params.as_deref(), Some("{\"x\":1}"));
}

#[test]
fn ai_helpers_assemble_messages_and_defaults() {
    let msgs = AIService::build_messages(&Some("be brief".to_string()), "hello");
    assert_eq!(msgs.len(), 2);
    assert_eq!(msgs[0].role, "system");
    assert_eq!(msgs[0].content, "be brief");
    assert_eq!(msgs[1].role, "user");
    let msgs = AIService::build_messages(&None, "hello");
    assert_eq!(msgs.len(), 1);

    let (e, m, k) = AIService::resolve_config("".into(), "".into(), "".into());
    assert_eq!(e, "http://localhost:11434");
    assert_eq!(m, "llama3");
    assert!(k.is_none());
    let (e, m, k) = AIService::resolve_config("http://host".into(), "m1".into(), "s".into());
    assert_eq!(e, "http://host");
    assert_eq!(m, "m1");
    assert_eq!(k.as_deref(), Some("s"));

    assert_eq!(
        AIService::completions_url("http://host:9/"),
        "http://host:9/v1/chat/completions"
    );
    assert_eq!(AIService::bearer_header("k3y"), "Bearer k3y");
    assert_eq!(AIService::format_reply("hi"), "[AI Response]\nhi");
    assert_eq!(AIService::api_error("400 bad"), "AI API Error: 400 bad");
}

#[test]
fn ai_reply_extraction_takes_the_first_choice() {
    let response = ChatResponse {
        choices: vec![Choice {
            message: Message { role: "assistant".into(), content: "answer".into() },
        }],
    };
    assert_eq!(AIService::extract_reply(&response).unwrap(), "answer");
    let empty = ChatResponse { choices: vec![] };
    assert_eq!(
        AIService::extract_reply(&empty).unwrap_err(),
        "No response content from AI"
    );
}

fn log(status: Option<&str>) -> TaskExecutionLogRecord {
    TaskExecutionLogRecord {
        id: 0,
        task_id: Some("t".into()),
        start_time: Some(0),
        end_time: None,
        status: status.map(|s| s.to_string()),
        output_log: None,
    }
}

#[test]
fn weekly_report_totals_and_markdown() {
    let logs = vec![log(Some("success")), log(Some("failed")), log(None), log(Some("success"))];
    let summary = summarize_logs(&logs);
    assert_eq!(summary.total_syncs, 4);
    assert_eq!(summary.success_count, 2);
    assert_eq!(summary.fail_count, 2);

    let commits = vec![CommitSummary {
        repo_name: "widget".into(),
        message: "fix build".into(),
        author: "sam".into(),
        time: "2024-01-02".into(),
    }];
    let md = format_weekly_report("2024-01-05", &summary, &commits);
    assert!(md.starts_with("# Weekly Report (2024-01-05)\n\n"));
    assert!(md.contains("- **Total Syncs**: 4\n"));
    assert!(md.contains("- **Success**: \u{2705} 2\n"));
    assert!(md.contains("- **Failed**: \u{274c} 2\n"));
    assert!(md.contains("- **widget** (sam): fix build\n"));

    let none = format_weekly_report("2024-01-05", &summarize_logs(&vec![]), &vec![]);
    assert!(none.contains("_No commit activity detected._"));
}

#[test]
fn trees_under_a_named_parent_list_only_its_groups() {
    let groups = vec![
        RepoGroupRecord { id: "g1".into(), name: "a".into(), parent_id: None, sort_order: 0 },
        RepoGroupRecord {
            id: "g2".into(),
            name: "b".into(),
            parent_id: Some("g1".into()),
            sort_order: 0,
        },
    ];
    let parent = "g1".to_string();
    let sub = repo_tree::build_tree(&groups, &vec![], Some(&parent));
    assert_eq!(sub.len(), 1);
    assert_eq!(sub[0].id, "g2");
}
