//! Tests of the orchestrator: fail-fast step execution, the duplicate-run
//! guard, and the step executors' decision logic.

use repoflow::orchestrator::{classify_action, unknown_step_error, GitExecutor, RunningSet,
    ScriptExecutor, ScriptParams, StepRecord, StepType, TaskRunner};

#[test]
fn steps_run_in_order_and_stop_at_the_first_failure() {
    // Steps [A succeeds, B fails, C]: the log holds step 0's success and
    // step 1's failure, never anything of step 2, and the run fails.
    let records = vec![
        StepRecord { step_order: 0, outcome: Ok("did the work".to_string()) },
        StepRecord { step_order: 1, outcome: Err("it broke".to_string()) },
        StepRecord { step_order: 2, outcome: Ok("never reached".to_string()) },
    ];
    let (log, success) = TaskRunner::run_steps(&records);
    assert!(log.contains("Step 0 Success"));
    assert!(log.contains("Step 1 Failed"));
    assert!(!log.contains("Step 2"));
    assert!(!log.contains("never reached"));
    assert!(!success);
    assert_eq!(log, "Step 0 Success:\ndid the work\nStep 1 Failed:\nit broke\n");
    assert_eq!(TaskRunner::final_status(success), "failed");
}

#[test]
fn a_run_with_only_successes_succeeds() {
    let records = vec![
        StepRecord { step_order: 0, outcome: Ok("one".to_string()) },
        StepRecord { step_order: 1, outcome: Ok("two".to_string()) },
    ];
    let (log, success) = TaskRunner::run_steps(&records);
    assert!(success);
    assert_eq!(log, "Step 0 Success:\none\nStep 1 Success:\ntwo\n");
    assert_eq!(TaskRunner::final_status(success), "success");
}

#[test]
fn duplicate_run_of_one_task_is_a_silent_no_op() {
    // Two triggers of one task id: only the first acquisition succeeds;
    // the duplicate returns false and the guard is unchanged, so exactly
    // one run executes.
    let mut guard = RunningSet::new();
    assert!(guard.try_acquire("task-1"));
    assert!(!guard.try_acquire("task-1"));
    assert!(guard.try_acquire("task-2"));
    guard.release("task-1");
    assert!(guard.try_acquire("task-1"));
    assert!(!guard.try_acquire("task-2"));
}

#[test]
fn action_types_map_to_their_step_kinds() {
    assert_eq!(classify_action("script"), Some(StepType::Script));
    assert_eq!(classify_action("git"), Some(StepType::Git));
    assert_eq!(classify_action("sync"), Some(StepType::Sync));
    assert_eq!(classify_action("AI_PROMPT"), Some(StepType::AiPrompt));
    assert_eq!(classify_action("ai_prompt"), None);
    assert_eq!(classify_action(""), None);
    assert_eq!(unknown_step_error("bogus"), "Unknown step type: bogus");
}

#[test]
fn script_failure_fails_the_step_unless_tolerated() {
    let strict = ScriptParams { script: "x".to_string(), continue_on_error: false };
    let tolerant = ScriptParams { script: "x".to_string(), continue_on_error: true };
    let failed = ScriptExecutor::evaluate(&strict, false, "out", "boom");
    assert_eq!(failed.unwrap_err(), "Script failed: boom");
    let tolerated = ScriptExecutor::evaluate(&tolerant, false, "out", "boom");
    assert_eq!(tolerated.unwrap(), "out\nboom");
    let ok = ScriptExecutor::evaluate(&strict, true, "out", "");
    assert_eq!(ok.unwrap(), "out\n");
}

#[test]
fn git_operations_map_to_their_commands() {
    // Each operation runs the literal version-control command.
    let pull = GitExecutor::git_command_for("pull").unwrap();
    assert_eq!(pull.program, "git");
    assert_eq!(pull.args, vec!["pull".to_string()]);
    assert_eq!(pull.display, "PULL");
    let push = GitExecutor::git_command_for("push").unwrap();
    assert_eq!(push.program, "git");
    assert_eq!(push.args, vec!["push".to_string()]);
    let fetch = GitExecutor::git_command_for("fetch").unwrap();
    assert_eq!(fetch.program, "git");
    assert_eq!(fetch.args, vec!["fetch".to_string(), "--all".to_string()]);
    let reset = GitExecutor::git_command_for("reset").unwrap();
    assert_eq!(reset.args, vec!["reset".to_string(), "--hard".to_string(), "HEAD".to_string()]);
    assert!(GitExecutor::git_command_for("rebase").is_none());
    assert_eq!(
        GitExecutor::unknown_operation_error("rebase"),
        "Unknown git operation: rebase"
    );
}

#[test]
fn git_result_header_names_operation_repository_and_path() {
    let h = GitExecutor::result_header("FETCH", "demo", "/tmp/demo");
    assert_eq!(h, "[Git FETCH] Repository: demo (/tmp/demo)\n");
}

#[test]
fn git_failure_texts_wrap_the_captured_output() {
    assert_eq!(
        GitExecutor::operation_failed_message("fetch", "[Git FETCH] boom"),
        "Git fetch failed:\n[Git FETCH] boom"
    );
    assert_eq!(
        GitExecutor::reset_remote_header("demo", "/tmp/demo"),
        "[Git RESET_REMOTE] Repository: demo (/tmp/demo)\n"
    );
    assert_eq!(GitExecutor::command_echo("git fetch --all"), "> git fetch --all\n");
    assert_eq!(GitExecutor::fetch_failed_message("log"), "git fetch failed:\nlog");
    assert_eq!(GitExecutor::reset_failed_message("log"), "git reset --hard failed:\nlog");
    assert_eq!(GitExecutor::branch_read_failed_message(), "Failed to get current branch name");
}

#[test]
fn a_git_operation_wraps_its_output_or_fails_with_it() {
    let ok = GitExecutor::evaluate_operation("pull", "PULL", "demo", "/d", true, "done\n", "");
    assert_eq!(ok.unwrap(), "[Git PULL] Repository: demo (/d)\ndone\n");
    let err = GitExecutor::evaluate_operation("pull", "PULL", "demo", "/d", false, "", "denied\n");
    assert_eq!(
        err.unwrap_err(),
        "Git pull failed:\n[Git PULL] Repository: demo (/d)\ndenied\n"
    );
}

#[test]
fn reset_to_remote_runs_its_three_steps_fail_fast() {
    // fetch -> branch read -> hard reset, aborting on the first failure
    // with the accumulated log.
    let logs = GitExecutor::reset_begin("demo", "/d");
    assert_eq!(logs, "[Git RESET_REMOTE] Repository: demo (/d)\n> git fetch --all\n");
    let logs = GitExecutor::reset_after_fetch(logs, true, "fetched\n", "").unwrap();
    let (logs, target) = GitExecutor::reset_after_branch(logs, true, "main\n").unwrap();
    assert_eq!(target, "origin/main");
    assert!(logs.ends_with("> git reset --hard origin/main\n"));
    let done = GitExecutor::reset_after_reset(logs.clone(), true, "HEAD is now at 1a2b\n", "");
    assert!(done.unwrap().contains("HEAD is now at 1a2b"));

    let failed = GitExecutor::reset_after_fetch("log ".to_string(), false, "", "no remote\n");
    assert_eq!(failed.unwrap_err(), "git fetch failed:\nlog no remote\n");
    let failed = GitExecutor::reset_after_branch("log".to_string(), false, "");
    assert_eq!(failed.unwrap_err(), "Failed to get current branch name");
    let failed = GitExecutor::reset_after_branch("log".to_string(), true, "HEAD\n");
    assert_eq!(failed.unwrap_err(), "Repository is in detached HEAD state");
    let failed = GitExecutor::reset_after_reset(logs, false, "", "conflict\n");
    assert!(failed.unwrap_err().starts_with("git reset --hard failed:\n"));
}

#[test]
fn reset_to_remote_refuses_a_detached_head() {
    assert_eq!(
        GitExecutor::check_current_branch("HEAD\n").unwrap_err(),
        "Repository is in detached HEAD state"
    );
    assert_eq!(
        GitExecutor::check_current_branch("  \n").unwrap_err(),
        "Repository is in detached HEAD state"
    );
    assert_eq!(GitExecutor::check_current_branch(" main\n").unwrap(), "main");
    assert_eq!(GitExecutor::remote_target("main"), "origin/main");
}
