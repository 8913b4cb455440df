//! Round-trip laws of the diff scan and the sync apply: applying a scan's
//! changes copies exactly the source bytes, and a second scan over the
//! updated target finds nothing left to do.

use vstd::prelude::*;
use crate::diff::{ChangeType, ChangeView, change_for, classify, rule_target_base, scan_rule_files,
    scan_rules, spec_scan};
use crate::mapping::{MappingRule, base_prefix, glob_match_of, glob_valid, mapped_rel};
use crate::sync::{SyncState, apply_change, apply_changes, spec_apply};
use crate::tree::{FileEntry, FileTree};

verus! {

/// One matched-and-first-seen file of a scan: its source-relative path,
/// its mapped target path, and its content bytes.
pub struct ProcEntry {
    pub path: Seq<char>,
    pub tpath: Seq<char>,
    pub data: Seq<u8>,
}

/// The trace entry one source file contributes under a rule's bases.
pub open spec fn entry_of_file(f: FileEntry, bs: Seq<char>, bd: Seq<char>) -> ProcEntry {
    ProcEntry { path: f.path@, tpath: mapped_rel(bs, bd, f.path@), data: f.data@ }
}

/// The files one rule's pass processes, in order: matched paths not seen
/// before.  This trace does not depend on the target tree.
pub open spec fn proc_rule(
    files: Seq<FileEntry>,
    pattern: Seq<char>,
    bs: Seq<char>,
    bd: Seq<char>,
    processed: Set<Seq<char>>,
) -> Seq<ProcEntry>
    decreases files.len(),
{
    if files.len() == 0 {
        Seq::empty()
    } else {
        let f = files.first();
        let rest = files.drop_first();
        if glob_match_of(pattern, f.path@) && !processed.contains(f.path@) {
            seq![entry_of_file(f, bs, bd)] + proc_rule(
                rest,
                pattern,
                bs,
                bd,
                processed.insert(f.path@),
            )
        } else {
            proc_rule(rest, pattern, bs, bd, processed)
        }
    }
}

/// The processed-path set after one rule's pass.
pub open spec fn processed_after(
    files: Seq<FileEntry>,
    pattern: Seq<char>,
    processed: Set<Seq<char>>,
) -> Set<Seq<char>>
    decreases files.len(),
{
    if files.len() == 0 {
        processed
    } else {
        let f = files.first();
        let rest = files.drop_first();
        if glob_match_of(pattern, f.path@) && !processed.contains(f.path@) {
            processed_after(rest, pattern, processed.insert(f.path@))
        } else {
            processed_after(rest, pattern, processed)
        }
    }
}

/// The files a whole scan processes, rules in order.
pub open spec fn proc_rules(
    rules: Seq<MappingRule>,
    files: Seq<FileEntry>,
    processed: Set<Seq<char>>,
) -> Seq<ProcEntry>
    decreases rules.len(),
{
    if rules.len() == 0 {
        Seq::empty()
    } else {
        let rule = rules.first();
        let rest = rules.drop_first();
        if rule.mode@ == "ignore"@ {
            proc_rules(rest, files, processed)
        } else if !glob_valid(rule.source@) {
            Seq::empty()
        } else {
            let bs = base_prefix(rule.source@);
            let bd = rule_target_base(rule);
            proc_rule(files, rule.source@, bs, bd, processed) + proc_rules(
                rest,
                files,
                processed_after(files, rule.source@, processed),
            )
        }
    }
}

/// Every non-ignore rule carries a well-formed glob.
pub open spec fn rules_globs_valid(rules: Seq<MappingRule>) -> bool {
    forall|i: int|
        0 <= i < rules.len() ==> (rules[i].mode@ == "ignore"@ || glob_valid(rules[i].source@))
}

/// The processed-path set a rule's pass leaves behind does not depend on
/// the target tree.
proof fn lemma_scan_rule_processed(
    files: Seq<FileEntry>,
    tmap: Map<Seq<char>, Seq<u8>>,
    pattern: Seq<char>,
    bs: Seq<char>,
    bd: Seq<char>,
    processed: Set<Seq<char>>,
)
    ensures
        scan_rule_files(files, tmap, pattern, bs, bd, processed).1 == processed_after(
            files,
            pattern,
            processed,
        ),
    decreases files.len(),
{
    if files.len() > 0 {
        let f = files.first();
        let rest = files.drop_first();
        if glob_match_of(pattern, f.path@) && !processed.contains(f.path@) {
            lemma_scan_rule_processed(rest, tmap, pattern, bs, bd, processed.insert(f.path@));
        } else {
            lemma_scan_rule_processed(rest, tmap, pattern, bs, bd, processed);
        }
    }
}

/// A scan succeeds exactly when every applicable rule's glob is
/// well-formed, whatever the target tree holds.
proof fn lemma_scan_ok_iff_valid(
    rules: Seq<MappingRule>,
    files: Seq<FileEntry>,
    tmap: Map<Seq<char>, Seq<u8>>,
    processed: Set<Seq<char>>,
)
    ensures
        scan_rules(rules, files, tmap, processed) is Ok <==> rules_globs_valid(rules),
    decreases rules.len(),
{
    if rules.len() == 0 {
    } else {
        let rule = rules.first();
        let rest = rules.drop_first();
        if rule.mode@ == "ignore"@ {
            lemma_scan_ok_iff_valid(rest, files, tmap, processed);
        } else if !glob_valid(rule.source@) {
            assert(!rules_globs_valid(rules));
        } else {
            let step = scan_rule_files(
                files,
                tmap,
                rule.source@,
                base_prefix(rule.source@),
                rule_target_base(rule),
                processed,
            );
            lemma_scan_ok_iff_valid(rest, files, tmap, step.1);
        }
        if rules_globs_valid(rules) {
            assert(forall|i: int| 0 <= i < rest.len() ==> rest[i] == rules[i + 1]);
            assert(rules_globs_valid(rest));
        }
        if rules_globs_valid(rest) && (rule.mode@ == "ignore"@ || glob_valid(rule.source@)) {
            assert(forall|i: int|
                0 <= i < rules.len() ==> (rules[i].mode@ == "ignore"@ || glob_valid(
                    rules[i].source@,
                ))) by {
                assert(forall|i: int| 1 <= i < rules.len() ==> rules[i] == rest[i - 1]);
            };
        }
    }
}
/// Every trace entry of one rule's pass stems from the given map of file
/// contents, and its target is its path mapped under the rule's bases.
proof fn lemma_proc_rule_in_map(
    files: Seq<FileEntry>,
    pattern: Seq<char>,
    bs: Seq<char>,
    bd: Seq<char>,
    processed: Set<Seq<char>>,
    m: Map<Seq<char>, Seq<u8>>,
)
    requires
        forall|i: int|
            0 <= i < files.len() ==> m.contains_key(#[trigger] files[i].path@) && m[files[i].path@]
                == files[i].data@,
    ensures
        forall|k: int|
            0 <= k < proc_rule(files, pattern, bs, bd, processed).len() ==> {
                let e = #[trigger] proc_rule(files, pattern, bs, bd, processed)[k];
                m.contains_key(e.path) && m[e.path] == e.data && e.tpath == mapped_rel(
                    bs,
                    bd,
                    e.path,
                )
            },
    decreases files.len(),
{
    if files.len() > 0 {
        let f = files.first();
        let rest = files.drop_first();
        assert(forall|i: int|
            0 <= i < rest.len() ==> m.contains_key(#[trigger] rest[i].path@) && m[rest[i].path@]
                == rest[i].data@) by {
            assert(forall|i: int| 0 <= i < rest.len() ==> rest[i] == files[i + 1]);
        };
        if glob_match_of(pattern, f.path@) && !processed.contains(f.path@) {
            let pr2 = processed.insert(f.path@);
            lemma_proc_rule_in_map(rest, pattern, bs, bd, pr2, m);
            assert forall|k: int|
                0 <= k < proc_rule(files, pattern, bs, bd, processed).len() implies {
                let e = #[trigger] proc_rule(files, pattern, bs, bd, processed)[k];
                m.contains_key(e.path) && m[e.path] == e.data && e.tpath == mapped_rel(
                    bs,
                    bd,
                    e.path,
                )
            } by {
                if k == 0 {
                    assert(files[0] == f);
                    assert(m.contains_key(files[0].path@));
                    assert(proc_rule(files, pattern, bs, bd, processed)[0] == entry_of_file(
                        f,
                        bs,
                        bd,
                    ));
                } else {
                    assert(proc_rule(files, pattern, bs, bd, processed)[k] == proc_rule(
                        rest,
                        pattern,
                        bs,
                        bd,
                        pr2,
                    )[k - 1]);
                }
            };
        } else {
            lemma_proc_rule_in_map(rest, pattern, bs, bd, processed, m);
            assert forall|k: int|
                0 <= k < proc_rule(files, pattern, bs, bd, processed).len() implies {
                let e = #[trigger] proc_rule(files, pattern, bs, bd, processed)[k];
                m.contains_key(e.path) && m[e.path] == e.data && e.tpath == mapped_rel(
                    bs,
                    bd,
                    e.path,
                )
            } by {
                assert(proc_rule(files, pattern, bs, bd, processed)[k] == proc_rule(
                    rest,
                    pattern,
                    bs,
                    bd,
                    processed,
                )[k]);
            };
        }
    }
}

/// Every trace entry of a whole scan stems from the given map of file
/// contents.
proof fn lemma_proc_rules_in_map(
    rules: Seq<MappingRule>,
    files: Seq<FileEntry>,
    processed: Set<Seq<char>>,
    m: Map<Seq<char>, Seq<u8>>,
)
    requires
        forall|i: int|
            0 <= i < files.len() ==> m.contains_key(#[trigger] files[i].path@) && m[files[i].path@]
                == files[i].data@,
    ensures
        forall|k: int|
            0 <= k < proc_rules(rules, files, processed).len() ==> {
                let e = #[trigger] proc_rules(rules, files, processed)[k];
                m.contains_key(e.path) && m[e.path] == e.data
            },
    decreases rules.len(),
{
    if rules.len() > 0 {
        let rule = rules.first();
        let rest = rules.drop_first();
        if rule.mode@ == "ignore"@ {
            lemma_proc_rules_in_map(rest, files, processed, m);
            assert forall|k: int| 0 <= k < proc_rules(rules, files, processed).len() implies {
                let e = #[trigger] proc_rules(rules, files, processed)[k];
                m.contains_key(e.path) && m[e.path] == e.data
            } by {
                assert(proc_rules(rules, files, processed)[k] == proc_rules(
                    rest,
                    files,
                    processed,
                )[k]);
            };
        } else if !glob_valid(rule.source@) {
        } else {
            let bs = base_prefix(rule.source@);
            let bd = rule_target_base(rule);
            let pr_next = processed_after(files, rule.source@, processed);
            lemma_proc_rule_in_map(files, rule.source@, bs, bd, processed, m);
            lemma_proc_rules_in_map(rest, files, pr_next, m);
            assert forall|k: int| 0 <= k < proc_rules(rules, files, processed).len() implies {
                let e = #[trigger] proc_rules(rules, files, processed)[k];
                m.contains_key(e.path) && m[e.path] == e.data
            } by {
                let ps1 = proc_rule(files, rule.source@, bs, bd, processed);
                if k < ps1.len() {
                    assert(proc_rules(rules, files, processed)[k] == proc_rule(
                        files,
                        rule.source@,
                        bs,
                        bd,
                        processed,
                    )[k]);
                } else {
                    assert(proc_rules(rules, files, processed)[k] == proc_rules(
                        rest,
                        files,
                        pr_next,
                    )[k - ps1.len()]);
                }
            };
        }
    }
}

/// A change record copies a trace entry: same path, same mapped target,
/// and a classification that really asked for it.
pub open spec fn change_matches_entry(
    c: ChangeView,
    e: ProcEntry,
    tmap: Map<Seq<char>, Seq<u8>>,
) -> bool {
    c == change_for(e.path, c.change_type, e.tpath) && classify(e.data, tmap, e.tpath) == Some(
        c.change_type,
    )
}

/// The change list a trace gives rise to against a target map: each
/// entry whose classification asks for work contributes one change.
pub open spec fn changes_of_trace(
    ps: Seq<ProcEntry>,
    tmap: Map<Seq<char>, Seq<u8>>,
) -> Seq<ChangeView>
    decreases ps.len(),
{
    if ps.len() == 0 {
        Seq::empty()
    } else {
        let e = ps.first();
        let head = match classify(e.data, tmap, e.tpath) {
            Some(ct) => seq![change_for(e.path, ct, e.tpath)],
            None => Seq::<ChangeView>::empty(),
        };
        head + changes_of_trace(ps.drop_first(), tmap)
    }
}

/// The changes of a concatenated trace are the concatenated changes.
proof fn lemma_changes_of_trace_concat(
    ps1: Seq<ProcEntry>,
    ps2: Seq<ProcEntry>,
    tmap: Map<Seq<char>, Seq<u8>>,
)
    ensures
        changes_of_trace(ps1 + ps2, tmap) == changes_of_trace(ps1, tmap) + changes_of_trace(
            ps2,
            tmap,
        ),
    decreases ps1.len(),
{
    if ps1.len() == 0 {
        assert(ps1 + ps2 =~= ps2);
        assert(changes_of_trace(ps1, tmap) + changes_of_trace(ps2, tmap) =~= changes_of_trace(
            ps2,
            tmap,
        ));
    } else {
        assert((ps1 + ps2).first() == ps1.first());
        assert((ps1 + ps2).drop_first() =~= ps1.drop_first() + ps2);
        lemma_changes_of_trace_concat(ps1.drop_first(), ps2, tmap);
        let e = ps1.first();
        let head = match classify(e.data, tmap, e.tpath) {
            Some(ct) => seq![change_for(e.path, ct, e.tpath)],
            None => Seq::<ChangeView>::empty(),
        };
        assert(head + (changes_of_trace(ps1.drop_first(), tmap) + changes_of_trace(ps2, tmap))
            =~= (head + changes_of_trace(ps1.drop_first(), tmap)) + changes_of_trace(ps2, tmap));
    }
}

/// One rule's changes are exactly the changes its trace gives rise to.
proof fn lemma_scan_rule_is_trace(
    files: Seq<FileEntry>,
    tmap: Map<Seq<char>, Seq<u8>>,
    pattern: Seq<char>,
    bs: Seq<char>,
    bd: Seq<char>,
    processed: Set<Seq<char>>,
)
    ensures
        scan_rule_files(files, tmap, pattern, bs, bd, processed).0 == changes_of_trace(
            proc_rule(files, pattern, bs, bd, processed),
            tmap,
        ),
    decreases files.len(),
{
    if files.len() > 0 {
        let f = files.first();
        let rest = files.drop_first();
        let ps = proc_rule(files, pattern, bs, bd, processed);
        if glob_match_of(pattern, f.path@) && !processed.contains(f.path@) {
            let pr2 = processed.insert(f.path@);
            lemma_scan_rule_is_trace(rest, tmap, pattern, bs, bd, pr2);
            let e0 = entry_of_file(f, bs, bd);
            let ps2 = proc_rule(rest, pattern, bs, bd, pr2);
            assert(ps == seq![e0] + ps2);
            assert(ps.first() == e0);
            assert(ps.drop_first() =~= ps2);
            let tail = changes_of_trace(ps2, tmap);
            match classify(f.data@, tmap, mapped_rel(bs, bd, f.path@)) {
                Some(ct) => {
                    assert(scan_rule_files(files, tmap, pattern, bs, bd, processed).0 == seq![
                        change_for(f.path@, ct, mapped_rel(bs, bd, f.path@)),
                    ] + tail);
                },
                None => {
                    assert(Seq::<ChangeView>::empty() + tail =~= tail);
                },
            }
        } else {
            lemma_scan_rule_is_trace(rest, tmap, pattern, bs, bd, processed);
        }
    }
}

/// A successful scan's changes are exactly the changes its whole trace
/// gives rise to.
proof fn lemma_scan_rules_is_trace(
    rules: Seq<MappingRule>,
    files: Seq<FileEntry>,
    tmap: Map<Seq<char>, Seq<u8>>,
    processed: Set<Seq<char>>,
    cs: Seq<ChangeView>,
    prout: Set<Seq<char>>,
)
    requires
        scan_rules(rules, files, tmap, processed) == Ok::<_, Seq<char>>((cs, prout)),
    ensures
        cs == changes_of_trace(proc_rules(rules, files, processed), tmap),
    decreases rules.len(),
{
    if rules.len() == 0 {
    } else {
        let rule = rules.first();
        let rest = rules.drop_first();
        if rule.mode@ == "ignore"@ {
            lemma_scan_rules_is_trace(rest, files, tmap, processed, cs, prout);
        } else {
            assert(glob_valid(rule.source@));
            let bs = base_prefix(rule.source@);
            let bd = rule_target_base(rule);
            let step = scan_rule_files(files, tmap, rule.source@, bs, bd, processed);
            lemma_scan_rule_processed(files, tmap, rule.source@, bs, bd, processed);
            let pr_next = processed_after(files, rule.source@, processed);
            let cs2 = scan_rules(rest, files, tmap, pr_next)->Ok_0.0;
            assert(cs == step.0 + cs2);
            lemma_scan_rule_is_trace(files, tmap, rule.source@, bs, bd, processed);
            lemma_scan_rules_is_trace(rest, files, tmap, pr_next, cs2, prout);
            lemma_changes_of_trace_concat(
                proc_rule(files, rule.source@, bs, bd, processed),
                proc_rules(rest, files, pr_next),
                tmap,
            );
        }
    }
}

/// Every change a trace gives rise to copies one of its entries.
proof fn lemma_trace_changes_fwd(ps: Seq<ProcEntry>, tmap: Map<Seq<char>, Seq<u8>>, j: int)
    requires
        0 <= j < changes_of_trace(ps, tmap).len(),
    ensures
        exists|k: int|
            0 <= k < ps.len() && #[trigger] change_matches_entry(
                changes_of_trace(ps, tmap)[j],
                ps[k],
                tmap,
            ),
    decreases ps.len(),
{
    let e = ps.first();
    let rest = ps.drop_first();
    match classify(e.data, tmap, e.tpath) {
        Some(ct) => {
            if j == 0 {
                assert(changes_of_trace(ps, tmap)[0] == change_for(e.path, ct, e.tpath));
                assert(ps[0] == e);
                assert(change_matches_entry(changes_of_trace(ps, tmap)[j], ps[0], tmap));
            } else {
                lemma_trace_changes_fwd(rest, tmap, j - 1);
                let k = choose|k: int|
                    0 <= k < rest.len() && #[trigger] change_matches_entry(
                        changes_of_trace(rest, tmap)[j - 1],
                        rest[k],
                        tmap,
                    );
                assert(changes_of_trace(ps, tmap)[j] == changes_of_trace(rest, tmap)[j - 1]);
                assert(ps[k + 1] == rest[k]);
                assert(change_matches_entry(changes_of_trace(ps, tmap)[j], ps[k + 1], tmap));
            }
        },
        None => {
            assert(changes_of_trace(ps, tmap) =~= changes_of_trace(rest, tmap));
            lemma_trace_changes_fwd(rest, tmap, j);
            let k = choose|k: int|
                0 <= k < rest.len() && #[trigger] change_matches_entry(
                    changes_of_trace(rest, tmap)[j],
                    rest[k],
                    tmap,
                );
            assert(ps[k + 1] == rest[k]);
            assert(change_matches_entry(changes_of_trace(ps, tmap)[j], ps[k + 1], tmap));
        },
    }
}

/// Every trace entry whose classification asks for work has its change
/// in the list the trace gives rise to.
proof fn lemma_trace_changes_bwd(ps: Seq<ProcEntry>, tmap: Map<Seq<char>, Seq<u8>>)
    ensures
        forall|k: int|
            0 <= k < ps.len() && #[trigger] classify(ps[k].data, tmap, ps[k].tpath) is Some
                ==> exists|j: int|
                0 <= j < changes_of_trace(ps, tmap).len() && #[trigger] change_matches_entry(
                    changes_of_trace(ps, tmap)[j],
                    ps[k],
                    tmap,
                ),
    decreases ps.len(),
{
    if ps.len() > 0 {
        let e = ps.first();
        let rest = ps.drop_first();
        let cs = changes_of_trace(ps, tmap);
        let cs2 = changes_of_trace(rest, tmap);
        lemma_trace_changes_bwd(rest, tmap);
        assert forall|k: int|
            0 <= k < ps.len() && #[trigger] classify(
                ps[k].data,
                tmap,
                ps[k].tpath,
            ) is Some implies exists|j: int|
            0 <= j < cs.len() && #[trigger] change_matches_entry(cs[j], ps[k], tmap) by {
            match classify(e.data, tmap, e.tpath) {
                Some(ct) => {
                    if k == 0 {
                        assert(cs[0] == change_for(e.path, ct, e.tpath));
                        assert(change_matches_entry(cs[0], ps[0], tmap));
                    } else {
                        assert(ps[k] == rest[k - 1]);
                        let j = choose|j: int|
                            0 <= j < cs2.len() && #[trigger] change_matches_entry(
                                cs2[j],
                                rest[k - 1],
                                tmap,
                            );
                        assert(cs[j + 1] == cs2[j]);
                        assert(change_matches_entry(cs[j + 1], ps[k], tmap));
                    }
                },
                None => {
                    assert(k != 0);
                    assert(ps[k] == rest[k - 1]);
                    assert(cs =~= cs2);
                    let j = choose|j: int|
                        0 <= j < cs2.len() && #[trigger] change_matches_entry(
                            cs2[j],
                            rest[k - 1],
                            tmap,
                        );
                    assert(change_matches_entry(cs[j], ps[k], tmap));
                },
            }
        };
    }
}
/// A change the sync executor can copy: an added or modified file whose
/// source path names real bytes in the source map.
pub open spec fn copyable(c: ChangeView, smap: Map<Seq<char>, Seq<u8>>) -> bool {
    (c.change_type == ChangeType::Added || c.change_type == ChangeType::Modified)
        && c.source_path == Some(c.path) && c.target_path is Some && smap.contains_key(c.path)
}

/// After an apply pass, every change's target holds exactly the bytes of
/// its source file, and paths no change targets are untouched.  In
/// particular a file present only in the source (`Added`) exists in the
/// target with byte-for-byte identical content afterwards.
pub proof fn lemma_apply_copies_source_bytes(
    smap: Map<Seq<char>, Seq<u8>>,
    st0: SyncState,
    cs: Seq<ChangeView>,
)
    requires
        forall|j: int| 0 <= j < cs.len() ==> copyable(#[trigger] cs[j], smap),
        forall|j1: int, j2: int|
            #![trigger cs[j1], cs[j2]]
            0 <= j1 < cs.len() && 0 <= j2 < cs.len() && cs[j1].target_path == cs[j2].target_path
                ==> cs[j1].path == cs[j2].path,
    ensures
        forall|j: int|
            0 <= j < cs.len() ==> apply_changes(smap, st0, cs).tmap.contains_key(
                (#[trigger] cs[j]).target_path->Some_0,
            ) && apply_changes(smap, st0, cs).tmap[cs[j].target_path->Some_0] == smap[cs[j].path],
        forall|p: Seq<char>|
            #![trigger apply_changes(smap, st0, cs).tmap.contains_key(p)]
            (forall|j: int| 0 <= j < cs.len() ==> (#[trigger] cs[j]).target_path != Some(p)) ==> (
            apply_changes(smap, st0, cs).tmap.contains_key(p) <==> st0.tmap.contains_key(p)) && (
            st0.tmap.contains_key(p) ==> apply_changes(smap, st0, cs).tmap[p] == st0.tmap[p]),
    decreases cs.len(),
{
    if cs.len() > 0 {
        let c0 = cs.first();
        let rest = cs.drop_first();
        let t0 = c0.target_path->Some_0;
        let st1 = apply_change(smap, st0, c0);
        assert(st1.tmap == st0.tmap.insert(t0, smap[c0.path]));
        assert(apply_changes(smap, st0, cs) == apply_changes(smap, st1, rest));
        lemma_apply_copies_source_bytes(smap, st1, rest);
        let m = apply_changes(smap, st0, cs).tmap;
        assert forall|j: int| 0 <= j < cs.len() implies m.contains_key(
            (#[trigger] cs[j]).target_path->Some_0,
        ) && m[cs[j].target_path->Some_0] == smap[cs[j].path] by {
            if j == 0 {
                if exists|j2: int| 0 <= j2 < rest.len() && (#[trigger] rest[j2]).target_path
                    == Some(t0) {
                    let j2 = choose|j2: int|
                        0 <= j2 < rest.len() && (#[trigger] rest[j2]).target_path == Some(t0);
                    assert(cs[j2 + 1] == rest[j2]);
                    assert(cs[j2 + 1].path == c0.path);
                    assert(m.contains_key(t0) && m[t0] == smap[rest[j2].path]);
                } else {
                    assert(forall|j2: int|
                        0 <= j2 < rest.len() ==> (#[trigger] rest[j2]).target_path != Some(t0));
                    assert(m.contains_key(t0) <==> st1.tmap.contains_key(t0));
                    assert(m[t0] == st1.tmap[t0]);
                }
            } else {
                assert(cs[j] == rest[j - 1]);
            }
        };
        assert forall|p: Seq<char>|
            (forall|j: int|
                0 <= j < cs.len() ==> (#[trigger] cs[j]).target_path != Some(
                    p,
                )) implies ((#[trigger] m.contains_key(p)) <==> st0.tmap.contains_key(p)) && (
        st0.tmap.contains_key(p) ==> m[p] == st0.tmap[p]) by {
            assert(cs[0].target_path != Some(p));
            assert(t0 != p);
            assert(forall|j: int|
                0 <= j < rest.len() ==> (#[trigger] rest[j]).target_path != Some(p)) by {
                assert(forall|j: int| 0 <= j < rest.len() ==> rest[j] == cs[j + 1]);
            };
            assert(m.contains_key(p) <==> st1.tmap.contains_key(p));
            assert(st1.tmap.contains_key(p) <==> st0.tmap.contains_key(p));
        };
    }
}

/// A trace whose targets already hold the right bytes gives rise to no
/// changes at all.
proof fn lemma_trace_no_work(ps: Seq<ProcEntry>, tmap: Map<Seq<char>, Seq<u8>>)
    requires
        forall|k: int|
            0 <= k < ps.len() ==> tmap.contains_key((#[trigger] ps[k]).tpath) && tmap[ps[k].tpath]
                == ps[k].data,
    ensures
        changes_of_trace(ps, tmap) == Seq::<ChangeView>::empty(),
    decreases ps.len(),
{
    if ps.len() > 0 {
        let e = ps.first();
        let rest = ps.drop_first();
        assert(ps[0] == e);
        assert(classify(e.data, tmap, e.tpath) is None);
        assert(forall|k: int|
            0 <= k < rest.len() ==> tmap.contains_key((#[trigger] rest[k]).tpath)
                && tmap[rest[k].tpath] == rest[k].data) by {
            assert(forall|k: int| 0 <= k < rest.len() ==> rest[k] == ps[k + 1]);
        };
        lemma_trace_no_work(rest, tmap);
        assert(changes_of_trace(ps, tmap) =~= Seq::<ChangeView>::empty());
    }
}

/// No two distinct processed files map to the same target path.
pub open spec fn distinct_targets(ps: Seq<ProcEntry>) -> bool {
    forall|k1: int, k2: int|
        #![trigger ps[k1].tpath, ps[k2].tpath]
        0 <= k1 < k2 < ps.len() ==> ps[k1].tpath != ps[k2].tpath
}

/// The scan-apply round trip is idempotent: after applying the changes of
/// one scan, a second scan of the same trees yields no added or modified
/// entries.  The law asks that no two processed files map to the same
/// target path; when two rules funnel different sources onto one target,
/// the later copy overwrites the earlier and a rescan would see it again.
pub proof fn lemma_scan_after_apply_finds_nothing(
    rules: Seq<MappingRule>,
    source: FileTree,
    tmap: Map<Seq<char>, Seq<u8>>,
    cs: Seq<ChangeView>,
)
    requires
        source.wf(),
        spec_scan(rules, source.files@, tmap) == Ok::<_, Seq<char>>(cs),
        distinct_targets(proc_rules(rules, source.files@, Set::empty())),
    ensures
        spec_scan(rules, source.files@, spec_apply(source.as_map(), tmap, cs).tmap) == Ok::<
            Seq<ChangeView>,
            Seq<char>,
        >(Seq::empty()),
{
    let files = source.files@;
    let smap = source.as_map();
    let ps = proc_rules(rules, files, Set::empty());
    let run1 = scan_rules(rules, files, tmap, Set::empty());
    match run1 {
        Ok(t) => {
            assert(cs == t.0);
            lemma_scan_rules_is_trace(rules, files, tmap, Set::empty(), t.0, t.1);
        },
        Err(_) => {
            assert(false);
        },
    }
    assert(cs == changes_of_trace(ps, tmap));
    assert(forall|i: int|
        0 <= i < files.len() ==> smap.contains_key((#[trigger] files[i]).path@)
            && smap[files[i].path@] == files[i].data@) by {
        assert forall|i: int| 0 <= i < files.len() implies smap.contains_key(
            (#[trigger] files[i]).path@,
        ) && smap[files[i].path@] == files[i].data@ by {
            FileTree::lemma_get(files, i);
        };
    };
    lemma_proc_rules_in_map(rules, files, Set::empty(), smap);
    let st0 = SyncState { tmap, success: 0, fail: 0, log: Seq::empty() };
    let m = apply_changes(smap, st0, cs).tmap;
    assert(spec_apply(smap, tmap, cs).tmap == m);
    assert forall|j: int| 0 <= j < cs.len() implies copyable(#[trigger] cs[j], smap) by {
        lemma_trace_changes_fwd(ps, tmap, j);
        let k = choose|k: int|
            0 <= k < ps.len() && #[trigger] change_matches_entry(
                changes_of_trace(ps, tmap)[j],
                ps[k],
                tmap,
            );
        assert(cs[j] == change_for(ps[k].path, cs[j].change_type, ps[k].tpath));
        assert(smap.contains_key(ps[k].path));
    };
    assert forall|j1: int, j2: int|
        #![trigger cs[j1], cs[j2]]
        0 <= j1 < cs.len() && 0 <= j2 < cs.len() && cs[j1].target_path
            == cs[j2].target_path implies cs[j1].path == cs[j2].path by {
        lemma_trace_changes_fwd(ps, tmap, j1);
        lemma_trace_changes_fwd(ps, tmap, j2);
        let k1 = choose|k: int|
            0 <= k < ps.len() && #[trigger] change_matches_entry(
                changes_of_trace(ps, tmap)[j1],
                ps[k],
                tmap,
            );
        let k2 = choose|k: int|
            0 <= k < ps.len() && #[trigger] change_matches_entry(
                changes_of_trace(ps, tmap)[j2],
                ps[k],
                tmap,
            );
        assert(cs[j1].target_path == Some(ps[k1].tpath));
        assert(cs[j2].target_path == Some(ps[k2].tpath));
        assert(ps[k1].tpath == ps[k2].tpath);
        if k1 < k2 || k2 < k1 {
            assert(false);
        }
        assert(cs[j1].path == ps[k1].path && cs[j2].path == ps[k2].path);
    };
    lemma_apply_copies_source_bytes(smap, st0, cs);
    assert forall|k: int| 0 <= k < ps.len() implies m.contains_key((#[trigger] ps[k]).tpath)
        && m[ps[k].tpath] == ps[k].data by {
        if classify(ps[k].data, tmap, ps[k].tpath) is Some {
            lemma_trace_changes_bwd(ps, tmap);
            let j = choose|j: int|
                0 <= j < changes_of_trace(ps, tmap).len() && #[trigger] change_matches_entry(
                    changes_of_trace(ps, tmap)[j],
                    ps[k],
                    tmap,
                );
            assert(cs[j].target_path == Some(ps[k].tpath));
            assert(cs[j].path == ps[k].path);
            assert(m.contains_key(cs[j].target_path->Some_0));
            assert(m[ps[k].tpath] == smap[ps[k].path]);
        } else {
            assert(tmap.contains_key(ps[k].tpath) && tmap[ps[k].tpath] == ps[k].data);
            assert forall|j: int| 0 <= j < cs.len() implies (#[trigger] cs[j]).target_path != Some(
                ps[k].tpath,
            ) by {
                if cs[j].target_path == Some(ps[k].tpath) {
                    lemma_trace_changes_fwd(ps, tmap, j);
                    let k2 = choose|kk: int|
                        0 <= kk < ps.len() && #[trigger] change_matches_entry(
                            changes_of_trace(ps, tmap)[j],
                            ps[kk],
                            tmap,
                        );
                    assert(ps[k2].tpath == ps[k].tpath);
                    if k2 < k || k < k2 {
                        assert(false);
                    }
                    assert(classify(ps[k].data, tmap, ps[k].tpath) is Some);
                }
            };
            assert(apply_changes(smap, st0, cs).tmap.contains_key(ps[k].tpath)
                <==> st0.tmap.contains_key(ps[k].tpath));
            assert(m[ps[k].tpath] == tmap[ps[k].tpath]);
        }
    };
    lemma_trace_no_work(ps, m);
    lemma_scan_ok_iff_valid(rules, files, tmap, Set::empty());
    lemma_scan_ok_iff_valid(rules, files, m, Set::empty());
    let run2 = scan_rules(rules, files, m, Set::empty());
    match run2 {
        Ok(t2) => {
            lemma_scan_rules_is_trace(rules, files, m, Set::empty(), t2.0, t2.1);
            assert(t2.0 == changes_of_trace(ps, m));
        },
        Err(_) => {
            assert(false);
        },
    }
}

} // verus!
