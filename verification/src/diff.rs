//! Diff engine: matches the files of a source tree against mapping rules
//! and classifies each match as added or modified relative to a target
//! tree.
//!
//! Rules whose mode is `"ignore"` are skipped; a rule with an ill-formed
//! glob aborts the whole scan.  A path already matched by an earlier rule
//! is processed once.  Files whose bytes equal the target's are left out
//! of the result, so the change set holds only work to do.

use vstd::prelude::*;
use vstd::string::*;
use crate::mapping::{MappingRule, base_prefix, glob_check, glob_match, glob_match_of, glob_valid,
    map_target_relative, mapped_rel};
use crate::strutil::{ends_with_char, find_char, rfind_char_before, str_eq, substring};
use crate::tree::{FileEntry, FileTree};

verus! {

/// How a matched source file relates to the target tree.
#[derive(Debug, Clone, Copy, PartialEq, Eq, Structural)]
pub enum ChangeType {
    Added,
    Modified,
    Deleted,
    Unchanged,
}

/// One classified file: the source-relative path, its change kind, and
/// the concrete source and target paths a sync would copy between.
#[derive(Debug, Clone)]
pub struct FileChange {
    pub path: String,
    pub change_type: ChangeType,
    pub source_path: Option<String>,
    pub target_path: Option<String>,
}

/// The mathematical image of a `FileChange`.
pub struct ChangeView {
    pub path: Seq<char>,
    pub change_type: ChangeType,
    pub source_path: Option<Seq<char>>,
    pub target_path: Option<Seq<char>>,
}

impl View for FileChange {
    type V = ChangeView;

    open spec fn view(&self) -> ChangeView {
        ChangeView {
            path: self.path@,
            change_type: self.change_type,
            source_path: self.source_path.deep_view(),
            target_path: self.target_path.deep_view(),
        }
    }
}

impl DeepView for FileChange {
    type V = ChangeView;

    open spec fn deep_view(&self) -> ChangeView {
        self.view()
    }
}

/// The result of one scan.
#[derive(Debug)]
pub struct DiffSummary {
    pub changes: Vec<FileChange>,
}

/// The diff engine itself; all state lives in its arguments.
pub struct DiffEngine;

/// How one source file with content `data` is classified against the
/// target map: absent means added, different bytes mean modified, and
/// identical bytes yield no change at all.
pub open spec fn classify(
    data: Seq<u8>,
    tmap: Map<Seq<char>, Seq<u8>>,
    tpath: Seq<char>,
) -> Option<ChangeType> {
    if !tmap.contains_key(tpath) {
        Some(ChangeType::Added)
    } else if tmap[tpath] != data {
        Some(ChangeType::Modified)
    } else {
        None
    }
}

/// Two files of equal size but different content are classified
/// `Modified`: the classification depends on the bytes alone, so no
/// size-equality fast path can miss it.
pub proof fn lemma_equal_size_still_modified(
    data: Seq<u8>,
    tmap: Map<Seq<char>, Seq<u8>>,
    tpath: Seq<char>,
)
    requires
        tmap.contains_key(tpath),
        tmap[tpath].len() == data.len(),
        tmap[tpath] != data,
    ensures
        classify(data, tmap, tpath) == Some(ChangeType::Modified),
{
}

/// The change record emitted for a processed source file.
pub open spec fn change_for(path: Seq<char>, ct: ChangeType, tpath: Seq<char>) -> ChangeView {
    ChangeView { path, change_type: ct, source_path: Some(path), target_path: Some(tpath) }
}

/// One rule's pass over the source files, front to back: matched paths
/// not yet processed are classified and marked processed.
pub open spec fn scan_rule_files(
    files: Seq<FileEntry>,
    tmap: Map<Seq<char>, Seq<u8>>,
    pattern: Seq<char>,
    bs: Seq<char>,
    bd: Seq<char>,
    processed: Set<Seq<char>>,
) -> (Seq<ChangeView>, Set<Seq<char>>)
    decreases files.len(),
{
    if files.len() == 0 {
        (Seq::empty(), processed)
    } else {
        let f = files.first();
        let rest = files.drop_first();
        if glob_match_of(pattern, f.path@) && !processed.contains(f.path@) {
            let tpath = mapped_rel(bs, bd, f.path@);
            let tail = scan_rule_files(rest, tmap, pattern, bs, bd, processed.insert(f.path@));
            match classify(f.data@, tmap, tpath) {
                Some(ct) => (seq![change_for(f.path@, ct, tpath)] + tail.0, tail.1),
                None => tail,
            }
        } else {
            scan_rule_files(rest, tmap, pattern, bs, bd, processed)
        }
    }
}

/// The target base of a rule: derived from its target prefix, or from the
/// source pattern when the target is empty.
pub open spec fn rule_target_base(rule: MappingRule) -> Seq<char> {
    if rule.target@.len() == 0 {
        base_prefix(rule.source@)
    } else {
        base_prefix(rule.target@)
    }
}

/// The scan over the rules in order, threading the processed-path set;
/// the first ill-formed glob among non-ignore rules aborts with that
/// pattern.
pub open spec fn scan_rules(
    rules: Seq<MappingRule>,
    files: Seq<FileEntry>,
    tmap: Map<Seq<char>, Seq<u8>>,
    processed: Set<Seq<char>>,
) -> Result<(Seq<ChangeView>, Set<Seq<char>>), Seq<char>>
    decreases rules.len(),
{
    if rules.len() == 0 {
        Ok((Seq::empty(), processed))
    } else {
        let rule = rules.first();
        let rest = rules.drop_first();
        if rule.mode@ == "ignore"@ {
            scan_rules(rest, files, tmap, processed)
        } else if !glob_valid(rule.source@) {
            Err(rule.source@)
        } else {
            let step = scan_rule_files(
                files,
                tmap,
                rule.source@,
                base_prefix(rule.source@),
                rule_target_base(rule),
                processed,
            );
            match scan_rules(rest, files, tmap, step.1) {
                Ok(r2) => Ok((step.0 + r2.0, r2.1)),
                Err(e) => Err(e),
            }
        }
    }
}

/// What a whole scan returns: the change list, or the first bad pattern.
pub open spec fn spec_scan(
    rules: Seq<MappingRule>,
    files: Seq<FileEntry>,
    tmap: Map<Seq<char>, Seq<u8>>,
) -> Result<Seq<ChangeView>, Seq<char>> {
    match scan_rules(rules, files, tmap, Set::empty()) {
        Ok(r) => Ok(r.0),
        Err(e) => Err(e),
    }
}

/// The error text reported for an ill-formed glob pattern.
pub open spec fn invalid_pattern_msg(pattern: Seq<char>) -> Seq<char> {
    "Invalid glob pattern: "@ + pattern
}

/// The set of path views a list of path strings denotes.
pub open spec fn strs_set(v: Seq<String>) -> Set<Seq<char>> {
    Set::new(|p: Seq<char>| exists|i: int| 0 <= i < v.len() && v[i]@ == p)
}

/// Whether some element of `v` reads as `s`.
fn contains_str(v: &Vec<String>, s: &str) -> (r: bool)
    ensures
        r == strs_set(v@).contains(s@),
{
    let n = v.len();
    let mut i: usize = 0;
    while i < n
        invariant
            n == v@.len(),
            0 <= i <= n,
            forall|j: int| 0 <= j < i ==> v@[j]@ != s@,
        decreases n - i,
    {
        if str_eq(v[i].as_str(), s) {
            return true;
        }
        i = i + 1;
    }
    false
}

/// Whether two byte vectors hold the same bytes.
fn bytes_eq(a: &Vec<u8>, b: &Vec<u8>) -> (r: bool)
    ensures
        r == (a@ == b@),
{
    let n = a.len();
    if n != b.len() {
        proof {
            assert(a@ != b@);
        }
        return false;
    }
    let mut i: usize = 0;
    while i < n
        invariant
            n == a@.len() == b@.len(),
            0 <= i <= n,
            forall|j: int| 0 <= j < i ==> a@[j] == b@[j],
        decreases n - i,
    {
        if a[i] != b[i] {
            return false;
        }
        i = i + 1;
    }
    proof {
        assert(a@ =~= b@);
    }
    true
}

impl DiffEngine {
    /// Whether a directory walk descends into an entry: hidden names and
    /// the common build and dependency folders are pruned.
    pub fn walk_keeps_entry(name: &str) -> (r: bool)
        ensures
            r == (!(name@.len() > 0 && name@[0] == '.') && name@ != "node_modules"@ && name@
                != "target"@ && name@ != "dist"@),
    {
        let hidden = if name.unicode_len() == 0 {
            false
        } else {
            name.get_char(0) == '.'
        };
        !hidden && !str_eq(name, "node_modules") && !str_eq(name, "target") && !str_eq(
            name,
            "dist",
        )
    }

    /// Extracts the base prefix of a glob pattern: the part up to and
    /// including the last `/` before the first `*`, or the whole pattern
    /// as a directory prefix when it has no wildcard.
    pub fn extract_glob_base(pattern: &str) -> (r: String)
        ensures
            r@ == base_prefix(pattern@),
    {
        match find_char(pattern, '*') {
            Some(pos) => {
                match rfind_char_before(pattern, '/', pos) {
                    Some(sl) => substring(pattern, 0, sl + 1),
                    None => String::new(),
                }
            },
            None => {
                if ends_with_char(pattern, '/') {
                    String::from_str(pattern)
                } else {
                    let mut s = String::from_str(pattern);
                    s.append("/");
                    proof {
                        reveal_strlit("/");
                        assert(s@ =~= pattern@ + seq!['/']);
                    }
                    s
                }
            },
        }
    }

    /// Scans a source tree against a target tree under the given rules
    /// and returns every added or modified file, or the error text for
    /// the first ill-formed glob among the rules that apply.
    pub fn scan_changes_with_roots(
        source: &FileTree,
        target: &FileTree,
        mappings: &Vec<MappingRule>,
    ) -> (r: Result<DiffSummary, String>)
        requires
            source.wf(),
            target.wf(),
        ensures
            r matches Ok(s) ==> spec_scan(mappings@, source.files@, target.as_map()) == Ok::<
                _,
                Seq<char>,
            >(s.changes.deep_view()),
            r matches Err(e) ==> (spec_scan(mappings@, source.files@, target.as_map()) matches Err(
                p,
            ) && e@ == invalid_pattern_msg(p)),
    {
        let ghost tmap = target.as_map();
        let ghost src = source.files@;
        let mut changes: Vec<FileChange> = Vec::new();
        let mut processed: Vec<String> = Vec::new();
        let nrules = mappings.len();
        let mut ri: usize = 0;
        proof {
            assert(mappings@.skip(0) =~= mappings@);
            assert(strs_set(processed@) =~= Set::<Seq<char>>::empty());
            assert(changes.deep_view() =~= Seq::<ChangeView>::empty());
            match scan_rules(mappings@, src, tmap, Set::empty()) {
                Ok(t) => {
                    assert(changes.deep_view() + t.0 =~= t.0);
                },
                Err(_) => {},
            }
        }
        while ri < nrules
            invariant
                source.wf(),
                target.wf(),
                tmap == target.as_map(),
                src == source.files@,
                nrules == mappings@.len(),
                0 <= ri <= nrules,
                (match scan_rules(mappings@.skip(ri as int), src, tmap, strs_set(processed@)) {
                    Ok(t) => scan_rules(mappings@, src, tmap, Set::empty()) == Ok::<_, Seq<char>>(
                        (changes.deep_view() + t.0, t.1),
                    ),
                    Err(e) => scan_rules(mappings@, src, tmap, Set::empty()) == Err::<
                        (Seq<ChangeView>, Set<Seq<char>>),
                        _,
                    >(e),
                }),
            decreases nrules - ri,
        {
            let ghost pr_rule = strs_set(processed@);
            let ghost rules_here = mappings@.skip(ri as int);
            proof {
                assert(rules_here.first() == mappings@[ri as int]);
                assert(rules_here.drop_first() =~= mappings@.skip(ri as int + 1));
            }
            let rule = &mappings[ri];
            if str_eq(rule.mode.as_str(), "ignore") {
                ri = ri + 1;
                continue;
            }
            if !glob_check(rule.source.as_str()) {
                let mut msg = String::from_str("Invalid glob pattern: ");
                msg.append(rule.source.as_str());
                proof {
                    reveal_strlit("Invalid glob pattern: ");
                }
                return Err(msg);
            }
            let bs = Self::extract_glob_base(rule.source.as_str());
            let bd = if rule.source_target_empty() {
                let b = Self::extract_glob_base(rule.source.as_str());
                b
            } else {
                Self::extract_glob_base(rule.target.as_str())
            };
            proof {
                assert(bd@ == rule_target_base(mappings@[ri as int]));
            }
            let nfiles = source.files.len();
            let mut k: usize = 0;
            let mut rule_changes: Vec<FileChange> = Vec::new();
            proof {
                assert(src.skip(0) =~= src);
                assert(rule_changes.deep_view() =~= Seq::<ChangeView>::empty());
                let full = scan_rule_files(src, tmap, rule.source@, bs@, bd@, pr_rule);
                assert(rule_changes.deep_view() + full.0 =~= full.0);
            }
            while k < nfiles
                invariant
                    source.wf(),
                    target.wf(),
                    tmap == target.as_map(),
                    src == source.files@,
                    nfiles == src.len(),
                    0 <= k <= nfiles,
                    glob_valid(rule.source@),
                    rule == mappings@[ri as int],
                    0 <= ri < mappings@.len(),
                    bs@ == base_prefix(rule.source@),
                    bd@ == rule_target_base(*rule),
                    ({
                        let full = scan_rule_files(src, tmap, rule.source@, bs@, bd@, pr_rule);
                        let rest = scan_rule_files(
                            src.skip(k as int),
                            tmap,
                            rule.source@,
                            bs@,
                            bd@,
                            strs_set(processed@),
                        );
                        full.0 == rule_changes.deep_view() + rest.0 && full.1 == rest.1
                    }),
                decreases nfiles - k,
            {
                proof {
                    assert(src.skip(k as int).first() == src[k as int]);
                    assert(src.skip(k as int).drop_first() =~= src.skip(k as int + 1));
                }
                let f = &source.files[k];
                let m = glob_match(rule.source.as_str(), f.path.as_str());
                let matched = match m {
                    Some(b) => b,
                    None => false,
                };
                if matched {
                    if !contains_str(&processed, f.path.as_str()) {
                        let ghost pr_before = strs_set(processed@);
                        let ghost old_seq = processed@;
                        processed.push(f.path.clone());
                        proof {
                            assert forall|p: Seq<char>| strs_set(processed@).contains(p) implies
                                pr_before.insert(f.path@).contains(p) by {
                                let i = choose|i: int|
                                    0 <= i < processed@.len() && processed@[i]@ == p;
                                if i < old_seq.len() {
                                    assert(old_seq[i]@ == p);
                                }
                            };
                            assert forall|p: Seq<char>| pr_before.insert(f.path@).contains(
                                p,
                            ) implies strs_set(processed@).contains(p) by {
                                if p == f.path@ {
                                    assert(processed@[old_seq.len() as int]@ == p);
                                } else {
                                    let i = choose|i: int|
                                        0 <= i < old_seq.len() && old_seq[i]@ == p;
                                    assert(processed@[i]@ == p);
                                }
                            };
                            assert(strs_set(processed@) =~= pr_before.insert(f.path@));
                        }
                        let tpath = map_target_relative(bs.as_str(), bd.as_str(), f.path.as_str());
                        match target.lookup(tpath.as_str()) {
                            None => {
                                let c = FileChange {
                                    path: f.path.clone(),
                                    change_type: ChangeType::Added,
                                    source_path: Some(f.path.clone()),
                                    target_path: Some(tpath),
                                };
                                let ghost cs_before = rule_changes.deep_view();
                                proof {
                                    assert(c@ == change_for(
                                        f.path@,
                                        ChangeType::Added,
                                        mapped_rel(bs@, bd@, f.path@),
                                    ));
                                }
                                rule_changes.push(c);
                                proof {
                                    assert(rule_changes.deep_view() =~= cs_before + seq![c@]);
                                }
                            },
                            Some(d) => {
                                let differs = if d.len() != f.data.len() {
                                    true
                                } else {
                                    !bytes_eq(d, &f.data)
                                };
                                if differs {
                                    let c = FileChange {
                                        path: f.path.clone(),
                                        change_type: ChangeType::Modified,
                                        source_path: Some(f.path.clone()),
                                        target_path: Some(tpath),
                                    };
                                    let ghost cs_before = rule_changes.deep_view();
                                    proof {
                                        assert(c@ == change_for(
                                            f.path@,
                                            ChangeType::Modified,
                                            mapped_rel(bs@, bd@, f.path@),
                                        ));
                                    }
                                    rule_changes.push(c);
                                    proof {
                                        assert(rule_changes.deep_view() =~= cs_before + seq![c@]);
                                    }
                                }
                            },
                        }
                    }
                }
                k = k + 1;
            }
            let ghost step = scan_rule_files(src, tmap, rule.source@, bs@, bd@, pr_rule);
            proof {
                assert(src.skip(nfiles as int) =~= Seq::<FileEntry>::empty());
                assert(step.0 =~= rule_changes.deep_view() + Seq::<ChangeView>::empty());
                assert(step.0 == rule_changes.deep_view());
                assert(step.1 == strs_set(processed@));
            }
            let ghost changes_before = changes.deep_view();
            changes.append(&mut rule_changes);
            proof {
                assert(changes.deep_view() =~= changes_before + step.0);
                match scan_rules(mappings@.skip(ri as int + 1), src, tmap, strs_set(processed@)) {
                    Ok(t2) => {
                        assert((changes_before + step.0) + t2.0 =~= changes_before + (step.0
                            + t2.0));
                    },
                    Err(_) => {},
                }
            }
            ri = ri + 1;
        }
        proof {
            assert(mappings@.skip(nrules as int) =~= Seq::<MappingRule>::empty());
            let t = scan_rules(mappings@.skip(nrules as int), src, tmap, strs_set(processed@));
            assert(t matches Ok(p) && p.0 == Seq::<ChangeView>::empty());
            assert(changes.deep_view() + Seq::<ChangeView>::empty() =~= changes.deep_view());
        }
        Ok(DiffSummary { changes })
    }
}

impl MappingRule {
    /// Whether the rule's target prefix is empty, in which case the
    /// source base is reused.
    fn source_target_empty(&self) -> (r: bool)
        ensures
            r == (self.target@.len() == 0),
    {
        self.target.as_str().unicode_len() == 0
    }
}

} // verus!
