//! Scheduler: decides which enabled tasks are due under their cron
//! expressions at a given instant.
//!
//! A time-only five-field expression is widened to six fields by a zero
//! seconds prefix.  A task is due when its next fire time falls within
//! the coming polling window, or when it missed its slot: its schedule
//! fired after its last recorded run, or - for a task that never ran -
//! its nearest fire time lies a short grace window in the past.
//! Malformed expressions mark only their own task as unschedulable.
//! The caller runs the polling loop and dispatches the returned ids.

use vstd::prelude::*;
use vstd::string::*;
use crate::strutil::is_space;

verus! {

/// What `cron::Schedule::from_str` decides for an expression: whether it
/// is a well-formed schedule.
pub uninterp spec fn cron_valid(expr: Seq<char>) -> bool;

/// What `cron::Schedule::after` yields first for a well-formed expression
/// and an instant, as unix seconds: the next fire time strictly after the
/// instant, if the schedule has one.  Schedules are evaluated in UTC, so
/// hour and day fields name UTC wall-clock times; an instant and an
/// expression alone then determine the result on every machine.
pub uninterp spec fn cron_next_of(expr: Seq<char>, after: i64) -> Option<i64>;

/// The last whole second the date type behind the schedule engine can
/// represent, as unix seconds.  The engine begins its search one second
/// after the given instant, so every instant handed to it must stay
/// strictly below this bound, or that successor would not be
/// representable.
pub const MAX_SCHEDULE_INSTANT: i64 = 8_210_266_876_799;

/// Relies on `cron::Schedule::from_str` and `Schedule::after`, with
/// `chrono::DateTime::from_timestamp` for the instant: whether an
/// expression parses depends on the expression alone, and - with the
/// timezone pinned to UTC - the next fire time is a pure function of the
/// expression and the instant.  The instant must lie strictly below the
/// last representable second: `Schedule::after` adds one second to it
/// before searching, and that sum must stay representable.
#[verifier::external_body]
pub(crate) fn cron_next_after(expr: &str, after_secs: i64) -> (r: Option<Option<i64>>)
    requires
        after_secs < MAX_SCHEDULE_INSTANT,
    ensures
        r is Some <==> cron_valid(expr@),
        r matches Some(next) ==> next == cron_next_of(expr@, after_secs),
{
    let schedule = match <cron::Schedule as std::str::FromStr>::from_str(expr) {
        Ok(s) => s,
        Err(_) => return None,
    };
    let after = match chrono::DateTime::<chrono::Utc>::from_timestamp(after_secs, 0) {
        Some(t) => t,
        None => return Some(None),
    };
    match schedule.after(&after).next() {
        Some(t) => Some(Some(t.timestamp())),
        None => Some(None),
    }
}

/// The number of whitespace-separated fields in the rest of `s`, given
/// whether position `i` continues a field.
pub open spec fn field_count(s: Seq<char>, i: int, in_field: bool) -> int
    decreases s.len() - i,
{
    if i < 0 || i >= s.len() {
        0
    } else if is_space(s[i]) {
        field_count(s, i + 1, false)
    } else if in_field {
        field_count(s, i + 1, true)
    } else {
        1 + field_count(s, i + 1, true)
    }
}

/// The number of whitespace-separated fields of a cron expression.
pub open spec fn cron_field_count(s: Seq<char>) -> int {
    field_count(s, 0, false)
}

/// A five-field expression widened by a zero seconds field; anything
/// else passes through unchanged.
pub open spec fn spec_normalize(s: Seq<char>) -> Seq<char> {
    if cron_field_count(s) == 5 {
        "0 "@ + s
    } else {
        s
    }
}

/// Counts the whitespace-separated fields of an expression.
pub fn count_fields(s: &str) -> (r: usize)
    ensures
        r as int == cron_field_count(s@),
{
    let n = s.unicode_len();
    let mut count: usize = 0;
    let mut in_field = false;
    let mut i: usize = 0;
    while i < n
        invariant
            n == s@.len(),
            0 <= i <= n,
            count <= i,
            cron_field_count(s@) == count + field_count(s@, i as int, in_field),
        decreases n - i,
    {
        let c = s.get_char(i);
        if c == ' ' || c == '\t' || c == '\n' || c == '\r' {
            in_field = false;
        } else {
            if !in_field {
                count = count + 1;
            }
            in_field = true;
        }
        i = i + 1;
    }
    count
}

/// Widens a time-only five-field cron expression to the scheduler's six
/// fields by prefixing a zero seconds field.
pub fn normalize_cron(expr: &str) -> (r: String)
    ensures
        r@ == spec_normalize(expr@),
{
    if count_fields(expr) == 5 {
        let mut s = String::from_str("0 ");
        s.append(expr);
        s
    } else {
        String::from_str(expr)
    }
}

/// The on-time check: the next fire time falls within the coming polling
/// window of sixty seconds.
pub open spec fn spec_should_run(next: Option<i64>, now: i64) -> bool {
    match next {
        Some(t) => now <= t && t < now + 60,
        None => false,
    }
}

/// The missed-run check: the schedule fired after the task's last run and
/// before now; or, for a task that never ran, its nearest fire time lies
/// within a two-minute grace window behind now.  An instant at or beyond
/// the representable bound can have no fire time and counts as not
/// missed.
pub open spec fn spec_missed_run(
    expr: Seq<char>,
    last_run: Option<i64>,
    upcoming: Option<i64>,
    now: i64,
) -> bool {
    match last_run {
        Some(lr) => lr < MAX_SCHEDULE_INSTANT && (match cron_next_of(expr, lr) {
            Some(next_after_last) => next_after_last < now,
            None => false,
        }),
        None => now < MAX_SCHEDULE_INSTANT && (match upcoming {
            Some(next) => next <= now && now < next + 120,
            None => false,
        }),
    }
}

/// Whether a task with the given raw expression and last run is due at
/// `now`; nothing when the widened expression is malformed.  At or
/// beyond the representable bound no fire time exists, so nothing is
/// due there.
pub open spec fn spec_task_due(expr: Seq<char>, last_run: Option<i64>, now: i64) -> Option<
    bool,
> {
    let norm = spec_normalize(expr);
    if !cron_valid(norm) {
        None
    } else {
        let upcoming = cron_next_of(norm, now);
        Some(
            (now < MAX_SCHEDULE_INSTANT && spec_should_run(upcoming, now)) || spec_missed_run(
                norm,
                last_run,
                upcoming,
                now,
            ),
        )
    }
}

/// Decides whether one task is due at `now` from its cron expression and
/// last run time; `None` reports a malformed expression.
pub fn task_due(expr: &str, last_run: Option<i64>, now: i64) -> (r: Option<bool>)
    ensures
        r == spec_task_due(expr@, last_run, now),
{
    let norm = normalize_cron(expr);
    let in_range = now < MAX_SCHEDULE_INSTANT;
    let probe = if in_range {
        now
    } else {
        MAX_SCHEDULE_INSTANT - 1
    };
    let upcoming = match cron_next_after(norm.as_str(), probe) {
        Some(u) => u,
        None => {
            return None;
        },
    };
    let should_run = in_range && (match upcoming {
        Some(t) => t >= now && (t as i128) < (now as i128) + 60,
        None => false,
    });
    let missed = match last_run {
        Some(lr) => {
            if lr < MAX_SCHEDULE_INSTANT {
                match cron_next_after(norm.as_str(), lr) {
                    Some(Some(next_after_last)) => next_after_last < now,
                    _ => false,
                }
            } else {
                false
            }
        },
        None => {
            in_range && (match upcoming {
                Some(t) => t <= now && (now as i128) < (t as i128) + 120,
                None => false,
            })
        },
    };
    Some(should_run || missed)
}

/// One enabled task as the scheduler sees it: its id, its raw cron
/// expression if any, and its last recorded run time in unix seconds.
#[derive(Debug, Clone)]
pub struct TaskSchedule {
    pub id: String,
    pub cron_expression: Option<String>,
    pub enabled: bool,
    pub last_run_time: Option<i64>,
}

/// Whether one polled task is dispatched at `now`: it is enabled, has a
/// non-empty cron expression, and that expression is well-formed and due.
pub open spec fn spec_task_dispatched(t: TaskSchedule, now: i64) -> bool {
    &&& t.enabled
    &&& t.cron_expression matches Some(e) && e@.len() > 0 && spec_task_due(
        e@,
        t.last_run_time,
        now,
    ) == Some(true)
}

/// The ids one poll cycle dispatches, in task order: each task is judged
/// by its own fields alone.
pub open spec fn spec_due_ids(tasks: Seq<TaskSchedule>, now: i64) -> Seq<Seq<char>>
    decreases tasks.len(),
{
    if tasks.len() == 0 {
        Seq::empty()
    } else {
        let head: Seq<Seq<char>> = if spec_task_dispatched(tasks.first(), now) {
            seq![tasks.first().id@]
        } else {
            Seq::empty()
        };
        head + spec_due_ids(tasks.drop_first(), now)
    }
}

/// One poll cycle over the enabled tasks: returns the ids of every task
/// that is due at `now`.  A malformed cron expression skips only its own
/// task; every other task is still evaluated and dispatched.
pub fn select_due_tasks(tasks: &Vec<TaskSchedule>, now: i64) -> (r: Vec<String>)
    ensures
        r.deep_view() == spec_due_ids(tasks@, now),
{
    let mut due: Vec<String> = Vec::new();
    let n = tasks.len();
    let mut i: usize = 0;
    proof {
        assert(tasks@.skip(0) =~= tasks@);
        assert(due.deep_view() + spec_due_ids(tasks@, now) =~= spec_due_ids(tasks@, now));
    }
    while i < n
        invariant
            n == tasks@.len(),
            0 <= i <= n,
            spec_due_ids(tasks@, now) == due.deep_view() + spec_due_ids(
                tasks@.skip(i as int),
                now,
            ),
        decreases n - i,
    {
        proof {
            assert(tasks@.skip(i as int).first() == tasks@[i as int]);
            assert(tasks@.skip(i as int).drop_first() =~= tasks@.skip(i as int + 1));
        }
        let t = &tasks[i];
        let ghost due_before = due.deep_view();
        if t.enabled {
            match &t.cron_expression {
                Some(expr) => {
                    if expr.as_str().unicode_len() > 0 {
                        match task_due(expr.as_str(), t.last_run_time, now) {
                            Some(true) => {
                                due.push(t.id.clone());
                                proof {
                                    assert(due.deep_view() =~= due_before + seq![t.id@]);
                                }
                            },
                            _ => {},
                        }
                    }
                },
                None => {},
            }
        }
        proof {
            assert(due.deep_view() + spec_due_ids(tasks@.skip(i as int + 1), now)
                =~= due_before + spec_due_ids(tasks@.skip(i as int), now));
        }
        i = i + 1;
    }
    proof {
        assert(tasks@.skip(n as int) =~= Seq::<TaskSchedule>::empty());
        assert(due.deep_view() + Seq::<Seq<char>>::empty() =~= due.deep_view());
    }
    due
}

/// A task that never ran, with a well-formed every-minute style schedule
/// whose nearest upcoming fire time lies within the grace window behind
/// `now`, is dispatched on the next poll.
pub proof fn lemma_never_run_in_grace_dispatched(t: TaskSchedule, now: i64, next: i64)
    requires
        now < MAX_SCHEDULE_INSTANT,
        t.enabled,
        t.last_run_time is None,
        t.cron_expression matches Some(e) && e@.len() > 0 && cron_valid(spec_normalize(e@))
            && cron_next_of(spec_normalize(e@), now) == Some(next),
        next <= now < next + 120,
    ensures
        spec_task_dispatched(t, now),
{
}

/// A task whose next fire time falls within the coming polling window is
/// dispatched on time.
pub proof fn lemma_upcoming_in_window_dispatched(t: TaskSchedule, now: i64, next: i64)
    requires
        now < MAX_SCHEDULE_INSTANT,
        t.enabled,
        t.cron_expression matches Some(e) && e@.len() > 0 && cron_valid(spec_normalize(e@))
            && cron_next_of(spec_normalize(e@), now) == Some(next),
        now <= next < now + 60,
    ensures
        spec_task_dispatched(t, now),
{
}

/// Splitting a poll cycle splits its dispatched ids.
proof fn lemma_due_ids_concat(a: Seq<TaskSchedule>, b: Seq<TaskSchedule>, now: i64)
    ensures
        spec_due_ids(a + b, now) == spec_due_ids(a, now) + spec_due_ids(b, now),
    decreases a.len(),
{
    if a.len() == 0 {
        assert(a + b =~= b);
        assert(spec_due_ids(a, now) + spec_due_ids(b, now) =~= spec_due_ids(b, now));
    } else {
        assert((a + b).first() == a.first());
        assert((a + b).drop_first() =~= a.drop_first() + b);
        lemma_due_ids_concat(a.drop_first(), b, now);
        let head: Seq<Seq<char>> = if spec_task_dispatched(a.first(), now) {
            seq![a.first().id@]
        } else {
            Seq::empty()
        };
        assert(head + (spec_due_ids(a.drop_first(), now) + spec_due_ids(b, now)) =~= (head
            + spec_due_ids(a.drop_first(), now)) + spec_due_ids(b, now));
    }
}

/// A task that is not dispatched - in particular one whose cron
/// expression is malformed - changes nothing for the other tasks of the
/// same poll cycle: the dispatched ids are those of the list without it.
pub proof fn lemma_undispatched_task_is_inert(tasks: Seq<TaskSchedule>, now: i64, j: int)
    requires
        0 <= j < tasks.len(),
        !spec_task_dispatched(tasks[j], now),
    ensures
        spec_due_ids(tasks, now) == spec_due_ids(tasks.take(j) + tasks.skip(j + 1), now),
{
    reveal_with_fuel(spec_due_ids, 3);
    let a = tasks.take(j);
    let mid = seq![tasks[j]];
    let b = tasks.skip(j + 1);
    assert(tasks =~= a + (mid + b));
    lemma_due_ids_concat(a, mid + b, now);
    lemma_due_ids_concat(mid, b, now);
    lemma_due_ids_concat(a, b, now);
    assert(mid.first() == tasks[j]);
    assert(mid.drop_first() =~= Seq::<TaskSchedule>::empty());
    assert(spec_due_ids(mid, now) =~= Seq::<Seq<char>>::empty());
    assert(Seq::<Seq<char>>::empty() + spec_due_ids(b, now) =~= spec_due_ids(b, now));
}

/// The scheduler's once-only start flag: starting is a check-and-set, so
/// a second start while the loop already runs is a no-op, and a stop
/// lets a later start succeed again.  The caller shares one instance,
/// under its own lock, between the start and stop paths and the loop.
#[derive(Debug)]
pub struct StartFlag {
    pub running: bool,
}

impl StartFlag {
    /// A scheduler that has not started yet.
    pub fn new() -> (r: StartFlag)
        ensures
            !r.running,
    {
        StartFlag { running: false }
    }

    /// Atomically checks and sets the flag: the first caller gets `true`
    /// and owns the loop; any caller while it runs gets `false`.
    pub fn try_start(&mut self) -> (r: bool)
        ensures
            r == !old(self).running,
            final(self).running,
    {
        let was_running = self.running;
        self.running = true;
        !was_running
    }

    /// Asks the running loop to stop at its next poll.
    pub fn stop(&mut self)
        ensures
            !final(self).running,
    {
        self.running = false;
    }
}

} // verus!
