//! Tests of the scheduler's due-task decisions, against the real cron
//! engine.

use repoflow::scheduler::{count_fields, normalize_cron, select_due_tasks, task_due,
    StartFlag, TaskSchedule, MAX_SCHEDULE_INSTANT};

// 2023-11-14 22:13:50 UTC; fifty seconds past the minute boundary.
const NOW: i64 = 1_700_000_030;

fn task(id: &str, cron: Option<&str>, enabled: bool, last_run: Option<i64>) -> TaskSchedule {
    TaskSchedule {
        id: id.to_string(),
        cron_expression: cron.map(|c| c.to_string()),
        enabled,
        last_run_time: last_run,
    }
}

#[test]
fn five_field_expressions_gain_a_seconds_field() {
    assert_eq!(count_fields("*/1 * * * *"), 5);
    assert_eq!(normalize_cron("*/1 * * * *"), "0 */1 * * * *");
    assert_eq!(normalize_cron("0 */1 * * * *"), "0 */1 * * * *");
    assert_eq!(normalize_cron("  a   b  "), "  a   b  ");
}

#[test]
fn an_every_minute_task_is_due_within_the_polling_window() {
    // A task with cron `*/1 * * * *` that never ran: its nearest fire
    // time is ten seconds ahead of the poll, inside the sixty-second
    // window, so the next poll dispatches it.
    assert_eq!(task_due("*/1 * * * *", None, NOW), Some(true));
    let tasks = vec![task("t1", Some("*/1 * * * *"), true, None)];
    let due = select_due_tasks(&tasks, NOW);
    assert_eq!(due, vec!["t1".to_string()]);
}

#[test]
fn a_task_that_missed_its_slot_is_due() {
    // Last ran an hour ago with an every-minute schedule: the fire after
    // the last run is long past.
    assert_eq!(task_due("*/1 * * * *", Some(NOW - 3600), NOW), Some(true));
}

#[test]
fn a_far_away_schedule_is_not_due() {
    // Yearly at midnight of January first; mid-November that is months
    // ahead.
    assert_eq!(task_due("0 0 0 1 1 *", None, NOW), Some(false));
}

#[test]
fn a_malformed_expression_marks_only_its_own_task() {
    assert_eq!(task_due("every minute please", None, NOW), None);
    // The malformed task is skipped; the healthy task of the same poll
    // cycle is still evaluated and dispatched.
    let tasks = vec![
        task("broken", Some("every minute please"), true, None),
        task("healthy", Some("*/1 * * * *"), true, None),
    ];
    let due = select_due_tasks(&tasks, NOW);
    assert_eq!(due, vec!["healthy".to_string()]);
}

#[test]
fn disabled_or_unscheduled_tasks_are_never_dispatched() {
    let tasks = vec![
        task("off", Some("*/1 * * * *"), false, None),
        task("no-cron", None, true, None),
        task("empty-cron", Some(""), true, None),
    ];
    let due = select_due_tasks(&tasks, NOW);
    assert!(due.is_empty());
}

#[test]
fn the_scheduler_starts_once_until_stopped() {
    let mut flag = StartFlag::new();
    assert!(flag.try_start());
    assert!(!flag.try_start());
    flag.stop();
    assert!(flag.try_start());
}

#[test]
fn instants_at_the_representable_bound_are_decided_without_a_fire_time() {
    // The schedule engine searches from one second past the instant, so
    // instants at or beyond the last representable second never fire;
    // the decision still comes back cleanly, and a malformed expression
    // is still reported as such.
    assert_eq!(task_due("*/1 * * * *", None, MAX_SCHEDULE_INSTANT), Some(false));
    assert_eq!(task_due("*/1 * * * *", None, i64::MAX), Some(false));
    assert_eq!(
        task_due("*/1 * * * *", Some(MAX_SCHEDULE_INSTANT), MAX_SCHEDULE_INSTANT + 60),
        Some(false)
    );
    assert_eq!(task_due("every minute please", None, MAX_SCHEDULE_INSTANT), None);
    // One second below the bound the engine itself decides; the year
    // lies far beyond any schedulable one, so nothing is due.
    assert_eq!(task_due("*/1 * * * *", None, MAX_SCHEDULE_INSTANT - 1), Some(false));
}
