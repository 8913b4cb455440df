//! Repository status classification: turns the counters a git inspection
//! yields - commits ahead, commits behind, local changes - into the
//! status label and the short summary the overview shows.

use vstd::prelude::*;
use vstd::string::*;
use std::collections::HashMap;
use crate::strutil::{spec_udec, u64_to_string};

verus! {

/// One local or remote branch of a repository.
#[derive(Debug, Clone)]
pub struct BranchInfo {
    pub name: String,
    pub is_current: bool,
    pub is_remote: bool,
}

/// One commit of a repository's log.
#[derive(Debug, Clone)]
pub struct CommitInfo {
    pub id: String,
    pub author: String,
    pub time: String,
    pub message: String,
}

/// One repository's displayed state.
#[derive(Debug, Clone)]
pub struct RepoStatus {
    pub id: String,
    pub name: String,
    pub path: String,
    pub status: String,
    pub short_summary: String,
}

/// The statuses of all repositories, keyed by repository id.
#[derive(Debug)]
pub struct RepoStatusMap {
    pub statuses: HashMap<String, RepoStatus>,
}

/// The status label the counters call for.
pub open spec fn spec_status_label(ahead: int, behind: int, changes: int) -> Seq<char> {
    if ahead > 0 && behind > 0 {
        "Diverged"@
    } else if ahead > 0 {
        "Ahead"@
    } else if behind > 0 {
        "Behind"@
    } else if changes > 0 {
        "Uncommitted"@
    } else {
        "Clean"@
    }
}

/// Two summary parts joined by one space; an empty side disappears.
pub open spec fn join_part(a: Seq<char>, b: Seq<char>) -> Seq<char> {
    if a.len() == 0 {
        b
    } else if b.len() == 0 {
        a
    } else {
        a + " "@ + b
    }
}

/// The short summary: the behind and ahead arrows and the change count,
/// space-separated, or a check mark when all three are zero.
pub open spec fn spec_short_summary(ahead: int, behind: int, changes: int) -> Seq<char> {
    let behind_part: Seq<char> = if behind > 0 {
        spec_udec(behind) + "\u{2193}"@
    } else {
        Seq::empty()
    };
    let ahead_part: Seq<char> = if ahead > 0 {
        spec_udec(ahead) + "\u{2191}"@
    } else {
        Seq::empty()
    };
    let changes_part: Seq<char> = if changes > 0 {
        spec_udec(changes) + " M"@
    } else {
        Seq::empty()
    };
    let joined = join_part(join_part(behind_part, ahead_part), changes_part);
    if joined.len() == 0 {
        "\u{2713}"@
    } else {
        joined
    }
}

/// A decimal rendering is never empty.
proof fn lemma_udec_nonempty(n: int)
    ensures
        spec_udec(n).len() >= 1,
    decreases n,
{
    if n >= 10 {
        lemma_udec_nonempty(n / 10);
    }
}

/// Classifies one repository from the counters a git inspection yielded:
/// the label and the short summary are exact functions of the three
/// numbers.
pub fn classify_repo_status(
    id: String,
    name: String,
    path: String,
    ahead: u64,
    behind: u64,
    changes: u64,
) -> (r: RepoStatus)
    ensures
        r.id@ == id@,
        r.name@ == name@,
        r.path@ == path@,
        r.status@ == spec_status_label(ahead as int, behind as int, changes as int),
        r.short_summary@ == spec_short_summary(ahead as int, behind as int, changes as int),
{
    let status = if ahead > 0 && behind > 0 {
        String::from_str("Diverged")
    } else if ahead > 0 {
        String::from_str("Ahead")
    } else if behind > 0 {
        String::from_str("Behind")
    } else if changes > 0 {
        String::from_str("Uncommitted")
    } else {
        String::from_str("Clean")
    };
    proof {
        reveal_strlit("\u{2193}");
        reveal_strlit("\u{2191}");
        reveal_strlit(" M");
        lemma_udec_nonempty(ahead as int);
        lemma_udec_nonempty(behind as int);
        lemma_udec_nonempty(changes as int);
    }
    let mut summary = String::new();
    if behind > 0 {
        let n = u64_to_string(behind);
        summary.append(n.as_str());
        summary.append("\u{2193}");
    }
    if ahead > 0 {
        if summary.as_str().unicode_len() > 0 {
            summary.append(" ");
        }
        let n = u64_to_string(ahead);
        summary.append(n.as_str());
        summary.append("\u{2191}");
    }
    if changes > 0 {
        if summary.as_str().unicode_len() > 0 {
            summary.append(" ");
        }
        let n = u64_to_string(changes);
        summary.append(n.as_str());
        summary.append(" M");
    }
    let short_summary = if summary.as_str().unicode_len() == 0 {
        String::from_str("\u{2713}")
    } else {
        summary
    };
    proof {
        assert(short_summary@ =~= spec_short_summary(
            ahead as int,
            behind as int,
            changes as int,
        ));
    }
    RepoStatus { id, name, path, status, short_summary }
}

} // verus!
