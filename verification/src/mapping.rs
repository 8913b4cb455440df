//! Mapping resolver: turns `{source glob, target prefix, mode}` rules into
//! concrete source-to-target path mappings.
//!
//! A rule's *base prefix* is the literal directory portion of its glob
//! pattern before the first wildcard.  A matched source-relative path is
//! remapped by replacing the source base with the target base, keeping the
//! matched suffix.

use vstd::prelude::*;
use vstd::string::*;
use crate::strutil::{sfind, srfind, starts_with};

verus! {

/// One mapping rule: a source glob pattern, a target path prefix, and a
/// mode that is either `"copy"` or `"ignore"`.
#[derive(Debug, Clone)]
pub struct MappingRule {
    pub source: String,
    pub target: String,
    pub mode: String,
}

/// What `glob::Pattern::new` decides for a pattern string: whether it is a
/// well-formed shell-style glob.
pub uninterp spec fn glob_valid(pattern: Seq<char>) -> bool;

/// What `glob::Pattern::matches` returns for a well-formed pattern and a
/// path.
pub uninterp spec fn glob_match_of(pattern: Seq<char>, path: Seq<char>) -> bool;

/// Relies on `glob::Pattern::new`: whether a pattern compiles is a pure
/// function of the pattern string.
#[verifier::external_body]
pub(crate) fn glob_check(pattern: &str) -> (r: bool)
    ensures
        r == glob_valid(pattern@),
{
    glob::Pattern::new(pattern).is_ok()
}

/// Relies on `glob::Pattern::new` and `glob::Pattern::matches`: whether a
/// well-formed pattern matches a path is a pure function of the two
/// strings; `None` reports an ill-formed pattern.
#[verifier::external_body]
pub(crate) fn glob_match(pattern: &str, path: &str) -> (r: Option<bool>)
    ensures
        r is Some <==> glob_valid(pattern@),
        r matches Some(m) ==> m == glob_match_of(pattern@, path@),
{
    match glob::Pattern::new(pattern) {
        Ok(p) => Some(p.matches(path)),
        Err(_) => None,
    }
}

/// A path with every backslash separator turned into a forward slash.
pub open spec fn normalized_seps(s: Seq<char>) -> Seq<char> {
    s.map_values(
        |c: char|
            if c == '\\' {
                '/'
            } else {
                c
            },
    )
}

/// Normalizes path separators to `/`, whatever the host wrote them as,
/// before any matching or comparison.
pub fn normalize_separators(s: &str) -> (r: String)
    ensures
        r@ == normalized_seps(s@),
{
    let n = s.unicode_len();
    let mut out = String::new();
    let mut i: usize = 0;
    while i < n
        invariant
            n == s@.len(),
            0 <= i <= n,
            out@.len() == i,
            forall|j: int|
                0 <= j < i ==> out@[j] == (if s@[j] == '\\' {
                    '/'
                } else {
                    s@[j]
                }),
        decreases n - i,
    {
        if s.get_char(i) == '\\' {
            proof {
                reveal_strlit("/");
            }
            out.append("/");
        } else {
            out.append(s.substring_char(i, i + 1));
        }
        i = i + 1;
    }
    proof {
        assert(out@ =~= normalized_seps(s@));
    }
    out
}

/// The base prefix of a glob pattern: everything up to and including the
/// last `/` before the first `*`; empty if no `/` precedes the wildcard;
/// and for a pattern without any wildcard, the whole pattern as a
/// directory prefix with a trailing `/`.
pub open spec fn base_prefix(p: Seq<char>) -> Seq<char> {
    match sfind(p, '*', 0) {
        Some(star) => match srfind(p, '/', star - 1) {
            Some(sl) => p.subrange(0, sl + 1),
            None => Seq::empty(),
        },
        None => if p.len() > 0 && p[p.len() - 1] == '/' {
            p
        } else {
            p + seq!['/']
        },
    }
}

/// A pattern without a wildcard is its own base prefix, with a trailing
/// separator appended when it lacks one.
pub proof fn lemma_no_wildcard_base(p: Seq<char>)
    requires
        sfind(p, '*', 0) is None,
    ensures
        base_prefix(p) == if p.len() > 0 && p[p.len() - 1] == '/' {
            p
        } else {
            p + seq!['/']
        },
{
}

/// The target-relative path for a matched source-relative path: the source
/// base is replaced by the target base when it is a prefix; otherwise the
/// target base is prepended to the whole path.
pub open spec fn mapped_rel(bs: Seq<char>, bd: Seq<char>, rel: Seq<char>) -> Seq<char> {
    if bs.is_prefix_of(rel) {
        bd + rel.subrange(bs.len() as int, rel.len() as int)
    } else {
        bd + rel
    }
}

/// Maps a matched source-relative path to its target-relative path.
pub fn map_target_relative(base_src: &str, base_dst: &str, rel: &str) -> (r: String)
    ensures
        r@ == mapped_rel(base_src@, base_dst@, rel@),
{
    let mut out = String::from_str(base_dst);
    if starts_with(rel, base_src) {
        let n = rel.unicode_len();
        let bn = base_src.unicode_len();
        proof {
            assert(base_src@.len() <= rel@.len());
        }
        let suffix = rel.substring_char(bn, n);
        out.append(suffix);
    } else {
        out.append(rel);
    }
    out
}

} // verus!
