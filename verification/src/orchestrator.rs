//! Task orchestrator: ordered multi-step execution with fail-fast
//! semantics, a per-task singleton guard against duplicate runs, and the
//! decision logic of the script and git step executors.
//!
//! The caller performs the outside work of each step - subprocesses, git
//! commands, HTTP, the store - and hands the outcomes back as plain
//! values; everything that decides is here.

use vstd::prelude::*;
use vstd::string::*;
use crate::strutil::{spec_trim, spec_udec, str_eq, trim, u64_to_string};

verus! {

/// The kind of work one task step performs.
#[derive(Debug, Clone, Copy, PartialEq, Eq, Structural)]
pub enum StepType {
    Script,
    Git,
    Sync,
    AiPrompt,
}

/// Parameters of a script step: the shell command line, and whether a
/// non-zero exit is tolerated.
#[derive(Debug, Clone)]
pub struct ScriptParams {
    pub script: String,
    pub continue_on_error: bool,
}

/// Parameters of an AI-prompt step.
#[derive(Debug, Clone)]
pub struct AIParams {
    pub system_prompt: Option<String>,
    pub user_prompt: String,
}

/// Parameters of a git step: the repository to act on and one of the
/// operations `pull`, `push`, `fetch`, `reset` or `reset_remote`.
#[derive(Debug, Clone)]
pub struct GitParams {
    pub repo_id: String,
    pub operation: String,
    pub arg: Option<String>,
    pub force_push: bool,
}

/// Parameters of a sync step.
#[derive(Debug, Clone)]
pub struct SyncParams {
    pub route_id: String,
}

/// Maps a step's action-type string to its kind; an unknown string maps
/// to nothing and fails the step.
pub fn classify_action(action_type: &str) -> (r: Option<StepType>)
    ensures
        r == (if action_type@ == "script"@ {
            Some(StepType::Script)
        } else if action_type@ == "git"@ {
            Some(StepType::Git)
        } else if action_type@ == "sync"@ {
            Some(StepType::Sync)
        } else if action_type@ == "AI_PROMPT"@ {
            Some(StepType::AiPrompt)
        } else {
            None
        }),
{
    if str_eq(action_type, "script") {
        Some(StepType::Script)
    } else if str_eq(action_type, "git") {
        Some(StepType::Git)
    } else if str_eq(action_type, "sync") {
        Some(StepType::Sync)
    } else if str_eq(action_type, "AI_PROMPT") {
        Some(StepType::AiPrompt)
    } else {
        None
    }
}

/// The error text for a step whose action type is not known.
pub fn unknown_step_error(action_type: &str) -> (r: String)
    ensures
        r@ == "Unknown step type: "@ + action_type@,
{
    let mut s = String::from_str("Unknown step type: ");
    s.append(action_type);
    s
}

/// The script step executor.
pub struct ScriptExecutor;

impl ScriptExecutor {
    /// Decides a script step from its captured subprocess result: a
    /// non-zero exit fails with the captured stderr unless the step is
    /// marked to continue, otherwise the combined output is returned.
    pub fn evaluate(params: &ScriptParams, exit_ok: bool, stdout: &str, stderr: &str) -> (r:
        Result<String, String>)
        ensures
            (!exit_ok && !params.continue_on_error) ==> (r matches Err(e) && e@
                == "Script failed: "@ + stderr@),
            (exit_ok || params.continue_on_error) ==> (r matches Ok(out) && out@ == stdout@
                + "\n"@ + stderr@),
    {
        if !exit_ok && !params.continue_on_error {
            let mut e = String::from_str("Script failed: ");
            e.append(stderr);
            Err(e)
        } else {
            let mut out = String::from_str(stdout);
            out.append("\n");
            out.append(stderr);
            Ok(out)
        }
    }
}

/// The concrete command a git step runs, with the name the log header
/// shows for it.
#[derive(Debug, Clone)]
pub struct GitCommand {
    pub program: String,
    pub args: Vec<String>,
    pub display: String,
}

/// The git step executor.
pub struct GitExecutor;

impl GitExecutor {
    /// The command a plain git operation runs: the literal
    /// version-control command for `pull`, `push`, `fetch` or `reset`
    /// against the repository path.  `reset_remote` is a compound
    /// operation handled step by step, and anything else is unknown.
    pub fn git_command_for(operation: &str) -> (r: Option<GitCommand>)
        ensures
            operation@ == "pull"@ ==> (r matches Some(c) && c.program@ == "git"@
                && c.args.deep_view() == seq!["pull"@] && c.display@ == "PULL"@),
            operation@ == "push"@ ==> (r matches Some(c) && c.program@ == "git"@
                && c.args.deep_view() == seq!["push"@] && c.display@ == "PUSH"@),
            operation@ == "fetch"@ ==> (r matches Some(c) && c.program@ == "git"@
                && c.args.deep_view() == seq!["fetch"@, "--all"@] && c.display@ == "FETCH"@),
            operation@ == "reset"@ ==> (r matches Some(c) && c.program@ == "git"@
                && c.args.deep_view() == seq!["reset"@, "--hard"@, "HEAD"@] && c.display@
                == "RESET"@),
            (operation@ != "pull"@ && operation@ != "push"@ && operation@ != "fetch"@
                && operation@ != "reset"@) ==> r is None,
    {
        proof {
            reveal_strlit("pull");
            reveal_strlit("push");
            reveal_strlit("fetch");
            reveal_strlit("reset");
            assert("pull"@.len() == 4 && "push"@.len() == 4 && "fetch"@.len() == 5
                && "reset"@.len() == 5);
            assert("pull"@[2] == 'l' && "push"@[2] == 's');
            assert("pull"@ != "push"@);
            assert("fetch"@[0] == 'f' && "reset"@[0] == 'r');
            assert("fetch"@ != "reset"@);
        }
        if str_eq(operation, "pull") {
            let mut args: Vec<String> = Vec::new();
            args.push(String::from_str("pull"));
            proof {
                assert(args.deep_view() =~= seq!["pull"@]);
            }
            Some(
                GitCommand {
                    program: String::from_str("git"),
                    args,
                    display: String::from_str("PULL"),
                },
            )
        } else if str_eq(operation, "push") {
            let mut args: Vec<String> = Vec::new();
            args.push(String::from_str("push"));
            proof {
                assert(args.deep_view() =~= seq!["push"@]);
            }
            Some(
                GitCommand {
                    program: String::from_str("git"),
                    args,
                    display: String::from_str("PUSH"),
                },
            )
        } else if str_eq(operation, "fetch") {
            let mut args: Vec<String> = Vec::new();
            args.push(String::from_str("fetch"));
            args.push(String::from_str("--all"));
            proof {
                assert(args.deep_view() =~= seq!["fetch"@, "--all"@]);
            }
            Some(
                GitCommand {
                    program: String::from_str("git"),
                    args,
                    display: String::from_str("FETCH"),
                },
            )
        } else if str_eq(operation, "reset") {
            let mut args: Vec<String> = Vec::new();
            args.push(String::from_str("reset"));
            args.push(String::from_str("--hard"));
            args.push(String::from_str("HEAD"));
            proof {
                assert(args.deep_view() =~= seq!["reset"@, "--hard"@, "HEAD"@]);
            }
            Some(
                GitCommand {
                    program: String::from_str("git"),
                    args,
                    display: String::from_str("RESET"),
                },
            )
        } else {
            None
        }
    }

    /// The error text for an operation no git step knows.
    pub fn unknown_operation_error(operation: &str) -> (r: String)
        ensures
            r@ == "Unknown git operation: "@ + operation@,
    {
        let mut s = String::from_str("Unknown git operation: ");
        s.append(operation);
        s
    }

    /// The log header naming the operation, repository and path.
    pub fn result_header(display: &str, repo_name: &str, repo_path: &str) -> (r: String)
        ensures
            r@ == "[Git "@ + display@ + "] Repository: "@ + repo_name@ + " ("@ + repo_path@
                + ")\n"@,
    {
        let mut s = String::from_str("[Git ");
        s.append(display);
        s.append("] Repository: ");
        s.append(repo_name);
        s.append(" (");
        s.append(repo_path);
        s.append(")\n");
        s
    }

    /// The failure text of a plain git operation, wrapping its combined
    /// output.
    pub fn operation_failed_message(operation: &str, result: &str) -> (r: String)
        ensures
            r@ == "Git "@ + operation@ + " failed:\n"@ + result@,
    {
        let mut s = String::from_str("Git ");
        s.append(operation);
        s.append(" failed:\n");
        s.append(result);
        s
    }

    /// The opening line of a reset-to-remote log.
    pub fn reset_remote_header(repo_name: &str, repo_path: &str) -> (r: String)
        ensures
            r@ == "[Git RESET_REMOTE] Repository: "@ + repo_name@ + " ("@ + repo_path@ + ")\n"@,
    {
        let mut s = String::from_str("[Git RESET_REMOTE] Repository: ");
        s.append(repo_name);
        s.append(" (");
        s.append(repo_path);
        s.append(")\n");
        s
    }

    /// The echo line the reset log shows before it runs a command.
    pub fn command_echo(cmd: &str) -> (r: String)
        ensures
            r@ == "> "@ + cmd@ + "\n"@,
    {
        let mut s = String::from_str("> ");
        s.append(cmd);
        s.append("\n");
        s
    }

    /// The failure text when the opening fetch of a reset fails.
    pub fn fetch_failed_message(logs: &str) -> (r: String)
        ensures
            r@ == "git fetch failed:\n"@ + logs@,
    {
        let mut s = String::from_str("git fetch failed:\n");
        s.append(logs);
        s
    }

    /// The failure text when the branch name cannot be read.
    pub fn branch_read_failed_message() -> (r: String)
        ensures
            r@ == "Failed to get current branch name"@,
    {
        String::from_str("Failed to get current branch name")
    }

    /// The failure text when the hard reset itself fails.
    pub fn reset_failed_message(logs: &str) -> (r: String)
        ensures
            r@ == "git reset --hard failed:\n"@ + logs@,
    {
        let mut s = String::from_str("git reset --hard failed:\n");
        s.append(logs);
        s
    }

    /// Checks the branch name read back from the repository: a reset to
    /// the remote needs a real branch, not a detached head.
    pub fn check_current_branch(branch_raw: &str) -> (r: Result<String, String>)
        ensures
            (spec_trim(branch_raw@) == Seq::<char>::empty() || spec_trim(branch_raw@) == "HEAD"@)
                ==> (r matches Err(e) && e@ == "Repository is in detached HEAD state"@),
            !(spec_trim(branch_raw@) == Seq::<char>::empty() || spec_trim(branch_raw@) == "HEAD"@)
                ==> (r matches Ok(b) && b@ == spec_trim(branch_raw@)),
    {
        let branch = trim(branch_raw);
        if branch.as_str().unicode_len() == 0 || str_eq(branch.as_str(), "HEAD") {
            proof {
                if branch@.len() == 0 {
                    assert(branch@ =~= Seq::<char>::empty());
                }
            }
            Err(String::from_str("Repository is in detached HEAD state"))
        } else {
            Ok(branch)
        }
    }

    /// The remote counterpart a reset targets: `origin/<branch>`.
    pub fn remote_target(branch: &str) -> (r: String)
        ensures
            r@ == "origin/"@ + branch@,
    {
        let mut s = String::from_str("origin/");
        s.append(branch);
        s
    }

    /// Decides a plain git operation from its captured result: on a zero
    /// exit the header-wrapped combined output, on anything else the
    /// failure text wrapping that same output.
    pub fn evaluate_operation(
        operation: &str,
        display: &str,
        repo_name: &str,
        repo_path: &str,
        exit_ok: bool,
        stdout: &str,
        stderr: &str,
    ) -> (r: Result<String, String>)
        ensures
            exit_ok ==> (r matches Ok(out) && out@ == spec_git_result(
                display@,
                repo_name@,
                repo_path@,
                stdout@,
                stderr@,
            )),
            !exit_ok ==> (r matches Err(e) && e@ == "Git "@ + operation@ + " failed:\n"@
                + spec_git_result(display@, repo_name@, repo_path@, stdout@, stderr@)),
    {
        let mut result = Self::result_header(display, repo_name, repo_path);
        result.append(stdout);
        result.append(stderr);
        proof {
            assert(result@ =~= spec_git_result(
                display@,
                repo_name@,
                repo_path@,
                stdout@,
                stderr@,
            ));
        }
        if exit_ok {
            Ok(result)
        } else {
            Err(Self::operation_failed_message(operation, result.as_str()))
        }
    }

    /// Opens a reset-to-remote sequence: the header and the echo of the
    /// fetch about to run.
    pub fn reset_begin(repo_name: &str, repo_path: &str) -> (r: String)
        ensures
            r@ == "[Git RESET_REMOTE] Repository: "@ + repo_name@ + " ("@ + repo_path@ + ")\n"@
                + "> git fetch --all\n"@,
    {
        let mut logs = Self::reset_remote_header(repo_name, repo_path);
        logs.append("> git fetch --all\n");
        logs
    }

    /// Folds the fetch result into the sequence: its output joins the
    /// log, and a non-zero exit aborts with the accumulated log.
    pub fn reset_after_fetch(logs: String, exit_ok: bool, stdout: &str, stderr: &str) -> (r:
        Result<String, String>)
        ensures
            exit_ok ==> (r matches Ok(l) && l@ == logs@ + stdout@ + stderr@),
            !exit_ok ==> (r matches Err(e) && e@ == "git fetch failed:\n"@ + (logs@ + stdout@
                + stderr@)),
    {
        let mut l = logs;
        l.append(stdout);
        l.append(stderr);
        if exit_ok {
            Ok(l)
        } else {
            Err(Self::fetch_failed_message(l.as_str()))
        }
    }

    /// Folds the branch read into the sequence: a failed read or a
    /// detached head aborts; otherwise the log gains the echo of the
    /// reset about to run, and the remote target comes back with it.
    pub fn reset_after_branch(logs: String, exit_ok: bool, branch_raw: &str) -> (r: Result<
        (String, String),
        String,
    >)
        ensures
            !exit_ok ==> (r matches Err(e) && e@ == "Failed to get current branch name"@),
            exit_ok && detached_branch(branch_raw@) ==> (r matches Err(e) && e@
                == "Repository is in detached HEAD state"@),
            exit_ok && !detached_branch(branch_raw@) ==> (r matches Ok(p) && p.1@ == "origin/"@
                + spec_trim(branch_raw@) && p.0@ == logs@ + "> git reset --hard "@ + ("origin/"@
                + spec_trim(branch_raw@)) + "\n"@),
    {
        if !exit_ok {
            return Err(Self::branch_read_failed_message());
        }
        let branch = match Self::check_current_branch(branch_raw) {
            Ok(b) => b,
            Err(e) => {
                return Err(e);
            },
        };
        let target = Self::remote_target(branch.as_str());
        let mut l = logs;
        l.append("> git reset --hard ");
        l.append(target.as_str());
        l.append("\n");
        proof {
            assert(l@ =~= logs@ + "> git reset --hard "@ + target@ + "\n"@);
        }
        Ok((l, target))
    }

    /// Folds the hard reset's result into the sequence: its output joins
    /// the log, and a non-zero exit aborts with the accumulated log.
    pub fn reset_after_reset(logs: String, exit_ok: bool, stdout: &str, stderr: &str) -> (r:
        Result<String, String>)
        ensures
            exit_ok ==> (r matches Ok(l) && l@ == logs@ + stdout@ + stderr@),
            !exit_ok ==> (r matches Err(e) && e@ == "git reset --hard failed:\n"@ + (logs@
                + stdout@ + stderr@)),
    {
        let mut l = logs;
        l.append(stdout);
        l.append(stderr);
        if exit_ok {
            Ok(l)
        } else {
            Err(Self::reset_failed_message(l.as_str()))
        }
    }
}

/// The header-wrapped combined output of one plain git operation.
pub open spec fn spec_git_result(
    display: Seq<char>,
    repo_name: Seq<char>,
    repo_path: Seq<char>,
    stdout: Seq<char>,
    stderr: Seq<char>,
) -> Seq<char> {
    "[Git "@ + display + "] Repository: "@ + repo_name + " ("@ + repo_path + ")\n"@ + stdout
        + stderr
}

/// Whether a raw branch name read from a repository names no real
/// branch: empty after trimming, or the detached-head marker.
pub open spec fn detached_branch(branch_raw: Seq<char>) -> bool {
    spec_trim(branch_raw) == Seq::<char>::empty() || spec_trim(branch_raw) == "HEAD"@
}

/// One executed step, as the orchestrator records it: the step's order
/// and what its executor returned.
#[derive(Debug)]
pub struct StepRecord {
    pub step_order: u64,
    pub outcome: Result<String, String>,
}

/// The log line one step outcome contributes.
pub open spec fn spec_step_line(r: StepRecord) -> Seq<char> {
    match r.outcome {
        Ok(out) => "Step "@ + spec_udec(r.step_order as int) + " Success:\n"@ + out@ + "\n"@,
        Err(e) => "Step "@ + spec_udec(r.step_order as int) + " Failed:\n"@ + e@ + "\n"@,
    }
}

/// The full log and final success of a run over step outcomes in order:
/// the log stops right after the first failure, and later steps
/// contribute nothing.
pub open spec fn spec_run(rs: Seq<StepRecord>) -> (Seq<char>, bool)
    decreases rs.len(),
{
    if rs.len() == 0 {
        (Seq::empty(), true)
    } else {
        let line = spec_step_line(rs.first());
        match rs.first().outcome {
            Ok(_) => {
                let rest = spec_run(rs.drop_first());
                (line + rest.0, rest.1)
            },
            Err(_) => (line, false),
        }
    }
}

/// The task orchestrator; its state lives with the caller.
pub struct TaskRunner;

impl TaskRunner {
    /// The log line for one step outcome.
    pub fn step_line(record: &StepRecord) -> (r: String)
        ensures
            r@ == spec_step_line(*record),
    {
        let mut s = String::from_str("Step ");
        let num = u64_to_string(record.step_order);
        s.append(num.as_str());
        match &record.outcome {
            Ok(out) => {
                s.append(" Success:\n");
                s.append(out.as_str());
            },
            Err(e) => {
                s.append(" Failed:\n");
                s.append(e.as_str());
            },
        }
        s.append("\n");
        s
    }

    /// Folds step outcomes in order into the run's log and final
    /// success, stopping at the first failure: later steps are never
    /// reached and leave no trace in the log.
    pub fn run_steps(records: &Vec<StepRecord>) -> (r: (String, bool))
        ensures
            (r.0@, r.1) == spec_run(records@),
    {
        let mut log = String::new();
        let n = records.len();
        let mut i: usize = 0;
        proof {
            assert(records@.skip(0) =~= records@);
        }
        while i < n
            invariant
                n == records@.len(),
                0 <= i <= n,
                ({
                    let rest = spec_run(records@.skip(i as int));
                    spec_run(records@) == (log@ + rest.0, rest.1)
                }),
            decreases n - i,
        {
            proof {
                assert(records@.skip(i as int).first() == records@[i as int]);
                assert(records@.skip(i as int).drop_first() =~= records@.skip(i as int + 1));
            }
            let line = Self::step_line(&records[i]);
            log.append(line.as_str());
            let failed = match &records[i].outcome {
                Ok(_) => false,
                Err(_) => true,
            };
            if failed {
                proof {
                    let rest = spec_run(records@.skip(i as int));
                    assert(spec_run(records@).0 =~= log@);
                }
                return (log, false);
            }
            proof {
                let rest2 = spec_run(records@.skip(i as int + 1));
                assert(spec_run(records@).0 =~= log@ + rest2.0);
            }
            i = i + 1;
        }
        proof {
            assert(records@.skip(n as int) =~= Seq::<StepRecord>::empty());
            assert(spec_run(records@).0 =~= log@);
        }
        (log, true)
    }

    /// The terminal status string a run leaves behind.
    pub fn final_status(success: bool) -> (r: &'static str)
        ensures
            success ==> r@ == "success"@,
            !success ==> r@ == "failed"@,
    {
        if success {
            "success"
        } else {
            "failed"
        }
    }
}

/// A run whose first step succeeds and whose second fails logs exactly
/// those two lines - the following steps are never executed, so no later
/// step line appears - and the run's final status is failed.
pub proof fn lemma_fail_fast_stops(rs: Seq<StepRecord>)
    requires
        rs.len() >= 2,
        rs[0].outcome is Ok,
        rs[1].outcome is Err,
    ensures
        spec_run(rs).0 == spec_step_line(rs[0]) + spec_step_line(rs[1]),
        spec_run(rs).1 == false,
{
    reveal_with_fuel(spec_run, 3);
    assert(rs.first() == rs[0]);
    assert(rs.drop_first().first() == rs[1]);
}

/// The set of task ids currently executing: the orchestrator's singleton
/// guard.  The caller shares one instance, under its own lock, among all
/// places that trigger runs.
#[derive(Debug)]
pub struct RunningSet {
    pub ids: Vec<String>,
}

impl RunningSet {
    /// The set of id views held.
    pub open spec fn view(&self) -> Set<Seq<char>> {
        Set::new(|p: Seq<char>| exists|i: int| 0 <= i < self.ids@.len() && self.ids@[i]@ == p)
    }

    /// An empty guard.
    pub fn new() -> (r: RunningSet)
        ensures
            r@ == Set::<Seq<char>>::empty(),
    {
        let r = RunningSet { ids: Vec::new() };
        proof {
            assert(r@ =~= Set::<Seq<char>>::empty());
        }
        r
    }

    /// Atomically checks and records a task id: the first caller gets
    /// `true` and the id is held; a duplicate trigger gets `false` and
    /// the set is unchanged.
    pub fn try_acquire(&mut self, id: &str) -> (r: bool)
        ensures
            r == !old(self)@.contains(id@),
            final(self)@ == old(self)@.insert(id@),
    {
        let n = self.ids.len();
        let mut i: usize = 0;
        while i < n
            invariant
                n == self.ids@.len(),
                0 <= i <= n,
                *self == *old(self),
                forall|j: int| 0 <= j < i ==> self.ids@[j]@ != id@,
            decreases n - i,
        {
            if str_eq(self.ids[i].as_str(), id) {
                proof {
                    assert(old(self)@.contains(id@));
                    assert(final(self)@ =~= old(self)@.insert(id@));
                }
                return false;
            }
            i = i + 1;
        }
        let ghost old_seq = self.ids@;
        self.ids.push(String::from_str(id));
        proof {
            assert(!old(self)@.contains(id@));
            assert forall|p: Seq<char>| final(self)@.contains(p) implies old(self)@.insert(
                id@,
            ).contains(p) by {
                let j = choose|j: int| 0 <= j < self.ids@.len() && self.ids@[j]@ == p;
                if j < old_seq.len() {
                    assert(old_seq[j]@ == p);
                }
            };
            assert forall|p: Seq<char>|
                old(self)@.insert(id@).contains(p) implies final(self)@.contains(p) by {
                if p == id@ {
                    assert(self.ids@[old_seq.len() as int]@ == p);
                } else {
                    let j = choose|j: int| 0 <= j < old_seq.len() && old_seq[j]@ == p;
                    assert(self.ids@[j]@ == p);
                }
            };
            assert(final(self)@ =~= old(self)@.insert(id@));
        }
        true
    }

    /// Releases a task id when its run finishes, on success and failure
    /// alike.
    pub fn release(&mut self, id: &str)
        ensures
            final(self)@ == old(self)@.remove(id@),
    {
        let n = self.ids.len();
        let mut out: Vec<String> = Vec::new();
        let mut i: usize = 0;
        while i < n
            invariant
                n == self.ids@.len(),
                0 <= i <= n,
                *self == *old(self),
                forall|j: int|
                    0 <= j < out@.len() ==> (#[trigger] out@[j])@ != id@,
                forall|j: int|
                    0 <= j < out@.len() ==> exists|k: int|
                        0 <= k < i && self.ids@[k]@ == (#[trigger] out@[j])@,
                forall|k: int|
                    0 <= k < i && (#[trigger] self.ids@[k])@ != id@ ==> exists|j: int|
                        0 <= j < out@.len() && out@[j]@ == self.ids@[k]@,
            decreases n - i,
        {
            if !str_eq(self.ids[i].as_str(), id) {
                let ghost out_before = out@;
                out.push(self.ids[i].clone());
                proof {
                    assert(out@[out_before.len() as int]@ == self.ids@[i as int]@);
                    assert(forall|j: int|
                        0 <= j < out_before.len() ==> out@[j] == out_before[j]);
                }
            }
            i = i + 1;
        }
        let ghost old_view = self@;
        self.ids = out;
        proof {
            assert forall|p: Seq<char>| self@.contains(p) implies old_view.remove(id@).contains(
                p,
            ) by {
                let j = choose|j: int| 0 <= j < self.ids@.len() && self.ids@[j]@ == p;
                let k = choose|k: int|
                    0 <= k < n && old(self).ids@[k]@ == (self.ids@[j])@;
                assert(old(self).ids@[k]@ == p);
            };
            assert forall|p: Seq<char>| old_view.remove(id@).contains(p) implies self@.contains(
                p,
            ) by {
                let k = choose|k: int| 0 <= k < old(self).ids@.len() && old(self).ids@[k]@ == p;
                assert(old(self).ids@[k]@ != id@);
                let j = choose|j: int|
                    0 <= j < self.ids@.len() && self.ids@[j]@ == old(self).ids@[k]@;
                assert(self.ids@[j]@ == p);
            };
            assert(self@ =~= old_view.remove(id@));
        }
    }
}

/// Two concurrent triggers of one task id are serialized by the guard:
/// the first acquisition succeeds, and any second acquisition before the
/// release returns `false` and leaves the guard unchanged, so exactly one
/// run executes and the duplicate is a silent no-op.
pub proof fn lemma_duplicate_run_is_noop(s0: Set<Seq<char>>, id: Seq<char>)
    requires
        !s0.contains(id),
    ensures
        s0.insert(id).contains(id),
        s0.insert(id).insert(id) == s0.insert(id),
{
    assert(s0.insert(id).insert(id) =~= s0.insert(id));
}

} // verus!
