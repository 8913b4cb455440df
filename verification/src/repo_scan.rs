//! Grouping of scanned repositories: derives the group folder chain for
//! an imported repository, either from its path on disk or from its git
//! remote URL.  The directory walk and the store writes stay with the
//! caller.

use vstd::prelude::*;
use vstd::string::*;
use crate::strutil::{sfind, spec_split, split_char, substring};

verus! {

/// One repository found by a scan of the local disk.
#[derive(Debug, Clone)]
pub struct ScannedRepo {
    pub path: String,
    pub name: String,
    pub relative_path: String,
    pub remote_url: Option<String>,
}

/// How imported repositories are grouped: by their folder layout, or by
/// the host and owner of their remote URL.
#[derive(Debug, Clone, Copy, PartialEq, Eq, Structural)]
pub enum GroupingMode {
    Path,
    GitUrl,
}

/// Progress of an import, as reported to the caller step by step.
#[derive(Debug, Clone)]
pub struct ImportProgress {
    pub current: usize,
    pub total: usize,
    pub status: String,
}

/// Whether a repository scan descends into an entry: the usual build,
/// dependency and trash folders are skipped for speed.
pub fn scan_keeps_entry(name: &str) -> (r: bool)
    ensures
        r == (name@ != "node_modules"@ && name@ != "target"@ && name@ != ".trash"@ && name@
            != "dist"@ && name@ != "build"@),
{
    !crate::strutil::str_eq(name, "node_modules") && !crate::strutil::str_eq(name, "target")
        && !crate::strutil::str_eq(name, ".trash") && !crate::strutil::str_eq(name, "dist")
        && !crate::strutil::str_eq(name, "build")
}

/// Whether the four characters before index `n` spell the `.git` suffix.
pub open spec fn has_git_suffix(s: Seq<char>, n: int) -> bool {
    n >= 4 && s[n - 4] == '.' && s[n - 3] == 'g' && s[n - 2] == 'i' && s[n - 1] == 't'
}

/// The prefix of `s` up to `n` with every trailing `.git` removed.
pub open spec fn spec_strip_git(s: Seq<char>, n: int) -> Seq<char>
    decreases n,
{
    if 0 <= n <= s.len() {
        if has_git_suffix(s, n) {
            spec_strip_git(s, n - 4)
        } else {
            s.subrange(0, n)
        }
    } else {
        Seq::empty()
    }
}

/// Removes every trailing `.git` from a URL.
fn strip_git_suffix(s: &str) -> (r: String)
    ensures
        r@ == spec_strip_git(s@, s@.len() as int),
{
    let mut n = s.unicode_len();
    loop
        invariant
            n <= s@.len(),
            spec_strip_git(s@, s@.len() as int) == spec_strip_git(s@, n as int),
        decreases n,
    {
        if n >= 4 && s.get_char(n - 4) == '.' && s.get_char(n - 3) == 'g' && s.get_char(n - 2)
            == 'i' && s.get_char(n - 1) == 't' {
            n = n - 4;
        } else {
            return substring(s, 0, n);
        }
    }
}

/// The first index at or after `i` where `://` begins.
pub open spec fn sfind_sep(s: Seq<char>, i: int) -> Option<int>
    decreases s.len() - i,
{
    if i < 0 || i + 3 > s.len() {
        None
    } else if s[i] == ':' && s[i + 1] == '/' && s[i + 2] == '/' {
        Some(i)
    } else {
        sfind_sep(s, i + 1)
    }
}


/// Finds the next `://` at or after `from`.
fn find_sep_from(s: &str, from: usize) -> (r: Option<usize>)
    requires
        from <= s@.len(),
    ensures
        r matches Some(i) ==> sfind_sep(s@, from as int) == Some(i as int) && from <= i && i + 3
            <= s@.len(),
        r is None ==> sfind_sep(s@, from as int) is None,
{
    let n = s.unicode_len();
    let mut i: usize = from;
    while i < n && n - i >= 3
        invariant
            n == s@.len(),
            from <= i,
            sfind_sep(s@, from as int) == sfind_sep(s@, i as int),
        decreases n - i,
    {
        if s.get_char(i) == ':' && s.get_char(i + 1) == '/' && s.get_char(i + 2) == '/' {
            return Some(i);
        }
        i = i + 1;
    }
    None
}

/// The piece of a URL between its first `://` and the next one, or the
/// rest of the URL; a URL without `://` is its own piece.  This mirrors
/// taking the second piece of a split at `://`.
pub open spec fn spec_url_path_part(s: Seq<char>) -> Seq<char> {
    match sfind_sep(s, 0) {
        None => s,
        Some(i) => match sfind_sep(s, i + 3) {
            None => s.subrange(i + 3, s.len() as int),
            Some(j) => s.subrange(i + 3, j),
        },
    }
}

/// The group chain a git remote URL yields: for an SSH-style URL the
/// host and the owner path, and for any other URL the segments of its
/// path part - in both cases without the final repository name.
pub open spec fn spec_parse_git_url(url: Seq<char>) -> Seq<Seq<char>> {
    let clean = spec_strip_git(url, url.len() as int);
    if sfind(clean, '@', 0) is Some && sfind(clean, ':', 0) is Some {
        let parts = spec_split(clean, ':');
        if parts.len() < 2 {
            Seq::empty()
        } else {
            let host_part = parts[0];
            let path_part = parts[1];
            let at_parts = spec_split(host_part, '@');
            let host = if at_parts.len() >= 2 {
                at_parts[1]
            } else {
                host_part
            };
            (seq![host] + spec_split(path_part, '/')).drop_last()
        }
    } else {
        let segs = spec_split(spec_url_path_part(clean), '/');
        if segs.len() > 0 {
            segs.drop_last()
        } else {
            segs
        }
    }
}

/// Derives the group chain from a git remote URL: host and owner for an
/// SSH-style remote, the path segments for an HTTP-style one, always
/// without the repository name itself.
pub fn parse_git_url_segments(url: &str) -> (r: Vec<String>)
    ensures
        r.deep_view() == spec_parse_git_url(url@),
{
    let clean = strip_git_suffix(url);
    let cs = clean.as_str();
    let has_at = match crate::strutil::find_char_from(cs, '@', 0) {
        Some(_) => true,
        None => false,
    };
    let has_colon = match crate::strutil::find_char_from(cs, ':', 0) {
        Some(_) => true,
        None => false,
    };
    if has_at && has_colon {
        let parts = split_char(cs, ':');
        if parts.len() < 2 {
            let r: Vec<String> = Vec::new();
            proof {
                assert(r.deep_view() =~= Seq::<Seq<char>>::empty());
            }
            return r;
        }
        let host_part = &parts[0];
        let path_part = &parts[1];
        let at_parts = split_char(host_part.as_str(), '@');
        let host = if at_parts.len() >= 2 {
            at_parts[1].clone()
        } else {
            host_part.clone()
        };
        let mut segments: Vec<String> = Vec::new();
        segments.push(host);
        let mut path_segs = split_char(path_part.as_str(), '/');
        let ghost before_append = segments.deep_view();
        segments.append(&mut path_segs);
        proof {
            assert(segments.deep_view() =~= seq![
                if spec_split(host_part@, '@').len() >= 2 {
                    spec_split(host_part@, '@')[1]
                } else {
                    host_part@
                },
            ] + spec_split(path_part@, '/'));
        }
        segments.pop();
        proof {
            assert(segments.deep_view() =~= (seq![
                if spec_split(host_part@, '@').len() >= 2 {
                    spec_split(host_part@, '@')[1]
                } else {
                    host_part@
                },
            ] + spec_split(path_part@, '/')).drop_last());
        }
        segments
    } else {
        let n = cs.unicode_len();
        let path = match find_sep_from(cs, 0) {
            None => clean,
            Some(i) => {
                match find_sep_from(cs, i + 3) {
                    None => substring(cs, i + 3, n),
                    Some(j) => substring(cs, i + 3, j),
                }
            },
        };
        let mut segs = split_char(path.as_str(), '/');
        proof {
            assert(segs.deep_view() == spec_split(spec_url_path_part(clean@), '/'));
        }
        segs.pop();
        proof {
            assert(segs.deep_view() =~= spec_split(spec_url_path_part(clean@), '/').drop_last());
        }
        segs
    }
}

/// Whether a path segment survives grouping: empty pieces and the
/// current-directory marker drop out.
pub open spec fn keeps_segment(p: Seq<char>) -> bool {
    p.len() > 0 && p != "."@
}

/// The segments that survive grouping, in order.
pub open spec fn spec_keep_segments(ps: Seq<Seq<char>>) -> Seq<Seq<char>>
    decreases ps.len(),
{
    if ps.len() == 0 {
        Seq::empty()
    } else {
        let head: Seq<Seq<char>> = if keeps_segment(ps.first()) {
            seq![ps.first()]
        } else {
            Seq::empty()
        };
        head + spec_keep_segments(ps.drop_first())
    }
}

/// The group chain a relative path yields: the path's parent directories,
/// with empty pieces and current-directory markers dropped.
pub open spec fn spec_path_segments(rel: Seq<char>) -> Seq<Seq<char>> {
    spec_keep_segments(spec_split(rel, '/').drop_last())
}

/// Derives the group chain from a repository's relative path: its parent
/// folders in order.
pub fn path_group_segments(rel: &str) -> (r: Vec<String>)
    ensures
        r.deep_view() == spec_path_segments(rel@),
{
    let mut pieces = split_char(rel, '/');
    pieces.pop();
    proof {
        assert(pieces.deep_view() =~= spec_split(rel@, '/').drop_last());
    }
    let ghost all = pieces.deep_view();
    let mut out: Vec<String> = Vec::new();
    let n = pieces.len();
    let mut i: usize = 0;
    proof {
        assert(all.skip(0) =~= all);
        assert(out.deep_view() + spec_keep_segments(all) =~= spec_keep_segments(all));
    }
    while i < n
        invariant
            n == pieces@.len(),
            all == pieces.deep_view(),
            0 <= i <= n,
            spec_keep_segments(all) == out.deep_view() + spec_keep_segments(all.skip(i as int)),
        decreases n - i,
    {
        proof {
            assert(all.skip(i as int).first() == all[i as int]);
            assert(all.skip(i as int).drop_first() =~= all.skip(i as int + 1));
            reveal_strlit(".");
        }
        let p = &pieces[i];
        let keep = p.as_str().unicode_len() > 0 && !crate::strutil::str_eq(p.as_str(), ".");
        let ghost before = out.deep_view();
        if keep {
            out.push(p.clone());
            proof {
                assert(out.deep_view() =~= before + seq![all[i as int]]);
            }
        }
        proof {
            assert(out.deep_view() + spec_keep_segments(all.skip(i as int + 1)) =~= before
                + spec_keep_segments(all.skip(i as int)));
        }
        i = i + 1;
    }
    proof {
        assert(all.skip(n as int) =~= Seq::<Seq<char>>::empty());
        assert(out.deep_view() + Seq::<Seq<char>>::empty() =~= out.deep_view());
    }
    out
}

/// The group chain one scanned repository yields under a grouping mode:
/// by path layout, or by remote URL with the path layout as fallback for
/// a repository without a remote.
pub open spec fn spec_group_segments(mode: GroupingMode, repo: ScannedRepo) -> Seq<Seq<char>> {
    match mode {
        GroupingMode::Path => spec_path_segments(repo.relative_path@),
        GroupingMode::GitUrl => match repo.remote_url {
            Some(url) => spec_parse_git_url(url@),
            None => spec_path_segments(repo.relative_path@),
        },
    }
}

/// Derives the group chain for one scanned repository.
pub fn group_segments(mode: &GroupingMode, repo: &ScannedRepo) -> (r: Vec<String>)
    ensures
        r.deep_view() == spec_group_segments(*mode, *repo),
{
    match mode {
        GroupingMode::Path => path_group_segments(repo.relative_path.as_str()),
        GroupingMode::GitUrl => {
            match &repo.remote_url {
                Some(url) => parse_git_url_segments(url.as_str()),
                None => path_group_segments(repo.relative_path.as_str()),
            }
        },
    }
}

} // verus!
