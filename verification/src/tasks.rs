//! Task records and transfer shapes: what the store holds for a task,
//! its ordered steps and its execution logs, and the assembly of a step
//! list from an edited task.  Times travel as unix seconds.

use vstd::prelude::*;
use vstd::string::*;

verus! {

/// One step of a task as edited: its action type and opaque parameters.
#[derive(Debug, Clone)]
pub struct TaskStepDTO {
    pub id: Option<i32>,
    pub action_type: String,
    pub params: String,
}

/// A task as edited: name, optional cron expression, enabled flag and
/// the full replacement step list.
#[derive(Debug, Clone)]
pub struct TaskDTO {
    pub id: Option<String>,
    pub name: String,
    pub cron: Option<String>,
    pub enabled: bool,
    pub steps: Vec<TaskStepDTO>,
}

/// A task as the store holds it.
#[derive(Debug, Clone)]
pub struct TaskRecord {
    pub id: String,
    pub name: String,
    pub cron_expression: Option<String>,
    pub enabled: Option<bool>,
    pub last_run_status: Option<String>,
    pub last_run_time: Option<i64>,
    pub created_at: i64,
}

/// One stored step of a task, ordered by `step_order`.
#[derive(Debug, Clone)]
pub struct TaskStepRecord {
    pub id: i32,
    pub task_id: Option<String>,
    pub step_order: i32,
    pub action_type: String,
    pub params: Option<String>,
}

/// One run's persisted record: created at run start, finalized at run
/// end, never changed afterwards.
#[derive(Debug, Clone)]
pub struct TaskExecutionLogRecord {
    pub id: i32,
    pub task_id: Option<String>,
    pub start_time: Option<i64>,
    pub end_time: Option<i64>,
    pub status: Option<String>,
    pub output_log: Option<String>,
}

/// A task with its ordered steps, as the editor loads it.
#[derive(Debug)]
pub struct TaskWithSteps {
    pub task: TaskRecord,
    pub steps: Vec<TaskStepRecord>,
}

/// Builds the stored step rows an edited task replaces its steps with:
/// one row per step in order, its position as the step order, fresh row
/// ids left at zero for the store to assign.
pub fn steps_for_insert(task_id: &str, steps: &Vec<TaskStepDTO>) -> (r: Vec<TaskStepRecord>)
    requires
        steps@.len() <= i32::MAX,
    ensures
        r@.len() == steps@.len(),
        forall|i: int|
            0 <= i < r@.len() ==> {
                let row = #[trigger] r@[i];
                &&& row.task_id.deep_view() == Some(task_id@)
                &&& row.step_order == i
                &&& row.action_type@ == steps@[i].action_type@
                &&& row.params.deep_view() == Some(steps@[i].params@)
            },
{
    let n = steps.len();
    let mut rows: Vec<TaskStepRecord> = Vec::new();
    let mut i: usize = 0;
    while i < n
        invariant
            n == steps@.len(),
            n <= i32::MAX,
            0 <= i <= n,
            rows@.len() == i,
            forall|j: int|
                0 <= j < i ==> {
                    let row = #[trigger] rows@[j];
                    &&& row.task_id.deep_view() == Some(task_id@)
                    &&& row.step_order == j
                    &&& row.action_type@ == steps@[j].action_type@
                    &&& row.params.deep_view() == Some(steps@[j].params@)
                },
        decreases n - i,
    {
        let step = &steps[i];
        rows.push(
            TaskStepRecord {
                id: 0,
                task_id: Some(String::from_str(task_id)),
                step_order: i as i32,
                action_type: step.action_type.clone(),
                params: Some(step.params.clone()),
            },
        );
        i = i + 1;
    }
    rows
}

} // verus!
