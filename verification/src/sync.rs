//! Sync executor: materializes the added and modified files of a diff
//! result into the target tree.
//!
//! Each file copy is independent: one failure is logged and counted, the
//! remaining files still go through.  Deleted and unchanged entries are
//! only reported, never acted on - the executor adds and overwrites, it
//! does not remove.

use vstd::prelude::*;
use vstd::string::*;
use crate::diff::{ChangeType, ChangeView, FileChange};
use crate::strutil::{spec_udec, u64_to_string};
use crate::tree::FileTree;

verus! {

/// What one sync run produced: how many copies succeeded and failed, and
/// the chronological text log of every per-file action.
#[derive(Debug)]
pub struct SyncResult {
    pub success_count: usize,
    pub fail_count: usize,
    pub logs: String,
}

/// The sync executor; all state lives in its arguments.
pub struct SyncEngine;

/// The running state of an apply pass: the target map so far, the two
/// counters, and the per-file log text.
pub struct SyncState {
    pub tmap: Map<Seq<char>, Seq<u8>>,
    pub success: int,
    pub fail: int,
    pub log: Seq<char>,
}

/// The log line for a successful copy.
pub open spec fn ok_line(src: Seq<char>, dst: Seq<char>) -> Seq<char> {
    "[OK] Copied "@ + src + " -> "@ + dst + "\n"@
}

/// The log line for a copy whose source path is missing from the source
/// tree.
pub open spec fn err_line(src: Seq<char>) -> Seq<char> {
    "[ERR] Missing source "@ + src + "\n"@
}

/// The log line for a deletion that is reported but not performed.
pub open spec fn skip_line(path: Seq<char>) -> Seq<char> {
    "[SKIP] Deletion detected but not enabled for "@ + path + "\n"@
}

/// The log line for an entry that needed no work.
pub open spec fn unchanged_line(path: Seq<char>) -> Seq<char> {
    "[SKIP] Unchanged "@ + path + "\n"@
}

/// The log header naming the route being synced.
pub open spec fn sync_header(name: Seq<char>) -> Seq<char> {
    "Syncing Route: "@ + name + "\n"@
}

/// The closing log line with the two counters.
pub open spec fn summary_line(success: int, fail: int) -> Seq<char> {
    "Sync Completed. Success: "@ + spec_udec(success) + ", Failed: "@ + spec_udec(fail) + "\n"@
}

/// How one change advances the sync state: added and modified files are
/// copied from the source map (or counted as failed when absent there),
/// deletions and unchanged entries are logged as skipped and left alone.
pub open spec fn apply_change(
    smap: Map<Seq<char>, Seq<u8>>,
    st: SyncState,
    c: ChangeView,
) -> SyncState {
    match c.change_type {
        ChangeType::Added | ChangeType::Modified => match (c.source_path, c.target_path) {
            (Some(src), Some(dst)) => if smap.contains_key(src) {
                SyncState {
                    tmap: st.tmap.insert(dst, smap[src]),
                    success: st.success + 1,
                    fail: st.fail,
                    log: st.log + ok_line(src, dst),
                }
            } else {
                SyncState {
                    tmap: st.tmap,
                    success: st.success,
                    fail: st.fail + 1,
                    log: st.log + err_line(src),
                }
            },
            _ => st,
        },
        ChangeType::Deleted => SyncState {
            tmap: st.tmap,
            success: st.success,
            fail: st.fail,
            log: st.log + skip_line(c.path),
        },
        ChangeType::Unchanged => SyncState {
            tmap: st.tmap,
            success: st.success,
            fail: st.fail,
            log: st.log + unchanged_line(c.path),
        },
    }
}

/// The sync state after applying a list of changes in order.
pub open spec fn apply_changes(
    smap: Map<Seq<char>, Seq<u8>>,
    st: SyncState,
    cs: Seq<ChangeView>,
) -> SyncState
    decreases cs.len(),
{
    if cs.len() == 0 {
        st
    } else {
        apply_changes(smap, apply_change(smap, st, cs.first()), cs.drop_first())
    }
}

/// The full effect of one apply pass started on a fresh state.
pub open spec fn spec_apply(
    smap: Map<Seq<char>, Seq<u8>>,
    tmap: Map<Seq<char>, Seq<u8>>,
    cs: Seq<ChangeView>,
) -> SyncState {
    apply_changes(smap, SyncState { tmap, success: 0, fail: 0, log: Seq::empty() }, cs)
}

/// Copies a byte vector.
fn copy_bytes(v: &Vec<u8>) -> (r: Vec<u8>)
    ensures
        r@ == v@,
{
    let n = v.len();
    let mut out: Vec<u8> = Vec::new();
    let mut i: usize = 0;
    while i < n
        invariant
            n == v@.len(),
            0 <= i <= n,
            out@ == v@.subrange(0, i as int),
        decreases n - i,
    {
        out.push(v[i]);
        proof {
            assert(out@ =~= v@.subrange(0, i + 1));
        }
        i = i + 1;
    }
    proof {
        assert(out@ =~= v@);
    }
    out
}

fn fmt_ok_line(src: &str, dst: &str) -> (r: String)
    ensures
        r@ == ok_line(src@, dst@),
{
    let mut s = String::from_str("[OK] Copied ");
    s.append(src);
    s.append(" -> ");
    s.append(dst);
    s.append("\n");
    s
}

fn fmt_err_line(src: &str) -> (r: String)
    ensures
        r@ == err_line(src@),
{
    let mut s = String::from_str("[ERR] Missing source ");
    s.append(src);
    s.append("\n");
    s
}

fn fmt_skip_line(path: &str) -> (r: String)
    ensures
        r@ == skip_line(path@),
{
    let mut s = String::from_str("[SKIP] Deletion detected but not enabled for ");
    s.append(path);
    s.append("\n");
    s
}

fn fmt_unchanged_line(path: &str) -> (r: String)
    ensures
        r@ == unchanged_line(path@),
{
    let mut s = String::from_str("[SKIP] Unchanged ");
    s.append(path);
    s.append("\n");
    s
}

fn fmt_summary_line(success: u64, fail: u64) -> (r: String)
    ensures
        r@ == summary_line(success as int, fail as int),
{
    let mut s = String::from_str("Sync Completed. Success: ");
    let a = u64_to_string(success);
    s.append(a.as_str());
    s.append(", Failed: ");
    let b = u64_to_string(fail);
    s.append(b.as_str());
    s.append("\n");
    s
}

impl SyncEngine {
    /// Applies a diff result to the target tree: every added or modified
    /// file is copied from the source tree, each copy independently; the
    /// result carries the counters and the full text log, opened with the
    /// route's name.
    pub fn execute_sync(
        route_name: &str,
        source: &FileTree,
        target: &mut FileTree,
        changes: &Vec<FileChange>,
    ) -> (r: SyncResult)
        requires
            source.wf(),
            old(target).wf(),
        ensures
            final(target).wf(),
            ({
                let st = spec_apply(source.as_map(), old(target).as_map(), changes.deep_view());
                final(target).as_map() == st.tmap && r.success_count == st.success
                    && r.fail_count == st.fail && r.logs@ == sync_header(route_name@) + st.log
                    + summary_line(st.success, st.fail)
            }),
    {
        let ghost smap = source.as_map();
        let ghost cs = changes.deep_view();
        let mut logs = String::from_str("Syncing Route: ");
        logs.append(route_name);
        logs.append("\n");
        let ghost header = logs@;
        let mut success: usize = 0;
        let mut fail: usize = 0;
        let n = changes.len();
        let mut i: usize = 0;
        proof {
            assert(header == sync_header(route_name@));
            assert(cs.skip(0) =~= cs);
            assert(logs@.take(header.len() as int) =~= header);
            assert(logs@.skip(header.len() as int) =~= Seq::<char>::empty());
        }
        while i < n
            invariant
                source.wf(),
                target.wf(),
                smap == source.as_map(),
                cs == changes.deep_view(),
                n == changes@.len(),
                0 <= i <= n,
                success + fail <= i,
                header == sync_header(route_name@),
                header.len() <= logs@.len(),
                ({
                    let st = SyncState {
                        tmap: target.as_map(),
                        success: success as int,
                        fail: fail as int,
                        log: logs@.skip(header.len() as int),
                    };
                    logs@.take(header.len() as int) == header && apply_changes(smap, st, cs.skip(
                        i as int,
                    )) == spec_apply(smap, old(target).as_map(), cs)
                }),
            decreases n - i,
        {
            proof {
                assert(cs.skip(i as int).first() == cs[i as int]);
                assert(cs.skip(i as int).drop_first() =~= cs.skip(i as int + 1));
                assert(cs[i as int] == changes@[i as int]@);
            }
            let c = &changes[i];
            let ghost log_before = logs@;
            let ghost st_before = SyncState {
                tmap: target.as_map(),
                success: success as int,
                fail: fail as int,
                log: logs@.skip(header.len() as int),
            };
            match c.change_type {
                ChangeType::Added | ChangeType::Modified => {
                    match (&c.source_path, &c.target_path) {
                        (Some(src), Some(dst)) => {
                            match source.lookup(src.as_str()) {
                                Some(data) => {
                                    let bytes = copy_bytes(data);
                                    let line = fmt_ok_line(src.as_str(), dst.as_str());
                                    target.insert(dst.clone(), bytes);
                                    logs.append(line.as_str());
                                    success = success + 1;
                                    proof {
                                        assert(logs@.skip(header.len() as int) =~= st_before.log
                                            + ok_line(src@, dst@));
                                    }
                                },
                                None => {
                                    let line = fmt_err_line(src.as_str());
                                    logs.append(line.as_str());
                                    fail = fail + 1;
                                    proof {
                                        assert(logs@.skip(header.len() as int) =~= st_before.log
                                            + err_line(src@));
                                    }
                                },
                            }
                        },
                        _ => {},
                    }
                },
                ChangeType::Deleted => {
                    let line = fmt_skip_line(c.path.as_str());
                    logs.append(line.as_str());
                    proof {
                        assert(logs@.skip(header.len() as int) =~= st_before.log + skip_line(
                            c.path@,
                        ));
                    }
                },
                ChangeType::Unchanged => {
                    let line = fmt_unchanged_line(c.path.as_str());
                    logs.append(line.as_str());
                    proof {
                        assert(logs@.skip(header.len() as int) =~= st_before.log + unchanged_line(
                            c.path@,
                        ));
                    }
                },
            }
            proof {
                assert(logs@.take(header.len() as int) =~= header);
                let st_now = SyncState {
                    tmap: target.as_map(),
                    success: success as int,
                    fail: fail as int,
                    log: logs@.skip(header.len() as int),
                };
                assert(st_now == apply_change(smap, st_before, cs[i as int]));
                assert(apply_changes(smap, st_before, cs.skip(i as int)) == apply_changes(
                    smap,
                    st_now,
                    cs.skip(i as int + 1),
                ));
            }
            i = i + 1;
        }
        proof {
            assert(cs.skip(n as int) =~= Seq::<ChangeView>::empty());
        }
        let summary = fmt_summary_line(success as u64, fail as u64);
        logs.append(summary.as_str());
        proof {
            let st = spec_apply(smap, old(target).as_map(), cs);
            assert(logs@ =~= header + st.log + summary_line(st.success, st.fail));
        }
        SyncResult { success_count: success, fail_count: fail, logs }
    }
}

} // verus!
