//! Weekly report assembly: totals over the recent execution logs and the
//! markdown document the report command renders.

use vstd::prelude::*;
use vstd::string::*;
use crate::strutil::{spec_udec, u64_to_string};
use crate::tasks::TaskExecutionLogRecord;

verus! {

/// The totals over the last week's execution logs.
#[derive(Debug, Clone)]
pub struct SyncSummary {
    pub total_syncs: usize,
    pub success_count: usize,
    pub fail_count: usize,
}

/// One recent commit as the report shows it.
#[derive(Debug, Clone)]
pub struct CommitSummary {
    pub repo_name: String,
    pub message: String,
    pub author: String,
    pub time: String,
}

/// The assembled weekly report.
#[derive(Debug)]
pub struct WeeklyReport {
    pub generated_at: String,
    pub sync_summary: SyncSummary,
    pub recent_commits: Vec<CommitSummary>,
}

/// How many of the logs from index `i` on finished successfully.
pub open spec fn spec_success_count(logs: Seq<TaskExecutionLogRecord>, i: int) -> int
    decreases logs.len() - i,
{
    if i < 0 || i >= logs.len() {
        0
    } else if logs[i].status.deep_view() == Some("success"@) {
        1 + spec_success_count(logs, i + 1)
    } else {
        spec_success_count(logs, i + 1)
    }
}

/// Totals the last week's logs: every log counts as one sync, a log with
/// status `success` counts as a success, the rest as failures.
pub fn summarize_logs(logs: &Vec<TaskExecutionLogRecord>) -> (r: SyncSummary)
    ensures
        r.total_syncs == logs@.len(),
        r.success_count == spec_success_count(logs@, 0),
        r.fail_count == logs@.len() - spec_success_count(logs@, 0),
{
    let n = logs.len();
    let mut success: usize = 0;
    let mut i: usize = 0;
    proof {
        lemma_success_count_bound(logs@, 0);
    }
    while i < n
        invariant
            n == logs@.len(),
            0 <= i <= n,
            success <= i,
            spec_success_count(logs@, 0) == success + spec_success_count(logs@, i as int),
            spec_success_count(logs@, i as int) <= n - i,
        decreases n - i,
    {
        proof {
            lemma_success_count_bound(logs@, i as int + 1);
        }
        let is_success = match &logs[i].status {
            Some(s) => crate::strutil::str_eq(s.as_str(), "success"),
            None => false,
        };
        if is_success {
            success = success + 1;
        }
        i = i + 1;
    }
    SyncSummary { total_syncs: n, success_count: success, fail_count: n - success }
}

/// The success count is bounded by the number of logs counted.
proof fn lemma_success_count_bound(logs: Seq<TaskExecutionLogRecord>, i: int)
    requires
        i <= logs.len(),
    ensures
        spec_success_count(logs, i) <= logs.len() - i,
        spec_success_count(logs, i) >= 0,
    decreases logs.len() - i,
{
    if !(i < 0 || i >= logs.len()) {
        lemma_success_count_bound(logs, i + 1);
    }
}

/// The markdown line for one commit.
pub open spec fn spec_commit_line(c: CommitSummary) -> Seq<char> {
    "- **"@ + c.repo_name@ + "** ("@ + c.author@ + "): "@ + c.message@ + "\n"@
}

/// The markdown lines for the first twenty commits from index `k` on.
pub open spec fn spec_commit_lines(cs: Seq<CommitSummary>, k: int) -> Seq<char>
    decreases cs.len() - k,
{
    if k < 0 || k >= cs.len() || k >= 20 {
        Seq::empty()
    } else {
        spec_commit_line(cs[k]) + spec_commit_lines(cs, k + 1)
    }
}

/// The full markdown document of a weekly report.
pub open spec fn spec_report_md(
    date: Seq<char>,
    total: int,
    success: int,
    fail: int,
    cs: Seq<CommitSummary>,
) -> Seq<char> {
    "# Weekly Report ("@ + date + ")\n\n"@ + "## \u{1f504} Sync Activity\n"@
        + "- **Total Syncs**: "@ + spec_udec(total) + "\n"@ + "- **Success**: \u{2705} "@
        + spec_udec(success) + "\n"@ + "- **Failed**: \u{274c} "@ + spec_udec(fail) + "\n\n"@
        + "## \u{1f4bb} Recent Commits (Last 7 Days Context)\n"@ + (if cs.len() == 0 {
        "_No commit activity detected._\n"@
    } else {
        spec_commit_lines(cs, 0)
    })
}

/// Renders the weekly report as markdown: the sync totals and the first
/// twenty recent commits, or a placeholder when there are none.
pub fn format_weekly_report(
    date: &str,
    summary: &SyncSummary,
    commits: &Vec<CommitSummary>,
) -> (r: String)
    ensures
        r@ == spec_report_md(
            date@,
            summary.total_syncs as int,
            summary.success_count as int,
            summary.fail_count as int,
            commits@,
        ),
{
    let mut md = String::from_str("# Weekly Report (");
    md.append(date);
    md.append(")\n\n");
    md.append("## \u{1f504} Sync Activity\n");
    md.append("- **Total Syncs**: ");
    let t = u64_to_string(summary.total_syncs as u64);
    md.append(t.as_str());
    md.append("\n");
    md.append("- **Success**: \u{2705} ");
    let s = u64_to_string(summary.success_count as u64);
    md.append(s.as_str());
    md.append("\n");
    md.append("- **Failed**: \u{274c} ");
    let f = u64_to_string(summary.fail_count as u64);
    md.append(f.as_str());
    md.append("\n\n");
    md.append("## \u{1f4bb} Recent Commits (Last 7 Days Context)\n");
    let ghost header = md@;
    if commits.len() == 0 {
        md.append("_No commit activity detected._\n");
    } else {
        let n = commits.len();
        let mut k: usize = 0;
        while k < n && k < 20
            invariant
                n == commits@.len(),
                n > 0,
                0 <= k <= n,
                k <= 20,
                header + spec_commit_lines(commits@, 0) == md@ + spec_commit_lines(
                    commits@,
                    k as int,
                ),
            decreases n - k,
        {
            let c = &commits[k];
            let mut line = String::from_str("- **");
            line.append(c.repo_name.as_str());
            line.append("** (");
            line.append(c.author.as_str());
            line.append("): ");
            line.append(c.message.as_str());
            line.append("\n");
            proof {
                assert(line@ =~= spec_commit_line(commits@[k as int]));
            }
            let ghost md_before = md@;
            md.append(line.as_str());
            proof {
                assert(spec_commit_lines(commits@, k as int) == line@ + spec_commit_lines(
                    commits@,
                    k as int + 1,
                ));
                assert((md_before + line@) + spec_commit_lines(commits@, k as int + 1)
                    =~= md_before + (line@ + spec_commit_lines(commits@, k as int + 1)));
            }
            k = k + 1;
        }
        proof {
            assert(spec_commit_lines(commits@, k as int) =~= Seq::<char>::empty());
            assert(md@ + Seq::<char>::empty() =~= md@);
        }
    }
    proof {
        assert(md@ =~= spec_report_md(
            date@,
            summary.total_syncs as int,
            summary.success_count as int,
            summary.fail_count as int,
            commits@,
        ));
    }
    md
}

} // verus!
