//! Dependency drift scanner: compares the dependency sections of two
//! `package.json` documents and warns where the two sides pin different
//! major versions of one package.

use vstd::prelude::*;
use vstd::string::*;
use crate::strutil::{str_eq, substring};

verus! {

/// One reported drift: a package both sides declare, with versions whose
/// major numbers differ.
#[derive(Debug, Clone)]
pub struct DependencyWarning {
    pub package_name: String,
    pub source_version: String,
    pub target_version: String,
    pub severity: String,
}

/// The mathematical image of a `DependencyWarning`.
pub struct WarningView {
    pub package_name: Seq<char>,
    pub source_version: Seq<char>,
    pub target_version: Seq<char>,
    pub severity: Seq<char>,
}

impl View for DependencyWarning {
    type V = WarningView;

    open spec fn view(&self) -> WarningView {
        WarningView {
            package_name: self.package_name@,
            source_version: self.source_version@,
            target_version: self.target_version@,
            severity: self.severity@,
        }
    }
}

impl DeepView for DependencyWarning {
    type V = WarningView;

    open spec fn deep_view(&self) -> WarningView {
        self.view()
    }
}

/// The dependency scanner; all state lives in its arguments.
pub struct DependencyScanner;

/// What `semver::Version::parse` yields for a version string: its major,
/// minor and patch numbers, or nothing for text that is no semantic
/// version.
pub uninterp spec fn semver_of(s: Seq<char>) -> Option<(u64, u64, u64)>;

/// Relies on `semver::Version::parse`: the parsed numbers are a pure
/// function of the version string.
#[verifier::external_body]
fn parse_semver(s: &str) -> (r: Option<(u64, u64, u64)>)
    ensures
        r == semver_of(s@),
{
    match semver::Version::parse(s) {
        Ok(v) => Some((v.major, v.minor, v.patch)),
        Err(_) => None,
    }
}

/// What one named dependency section of a `package.json` document holds:
/// its package-to-version entries, in the order the parsed map yields
/// them, or nothing when the document does not parse or lacks that
/// section.  A non-string version value reads as the empty string.
pub uninterp spec fn package_deps_of(json: Seq<char>, section: Seq<char>) -> Option<
    Seq<(Seq<char>, Seq<char>)>,
>;

/// Relies on `serde_json::from_str` and `Value::get`, `Value::as_object`
/// and `Value::as_str`: the entries of a named section are a pure
/// function of the document text.
#[verifier::external_body]
fn parse_package_deps(json: &str, section: &str) -> (r: Option<Vec<(String, String)>>)
    ensures
        r.deep_view() == package_deps_of(json@, section@),
{
    let v: serde_json::Value = serde_json::from_str(json).ok()?;
    let obj = v.get(section)?.as_object()?;
    Some(
        obj.iter().map(
            |(k, val)| (k.clone(), val.as_str().unwrap_or("").to_string()),
        ).collect(),
    )
}

/// Whether a character is one of the range markers stripped before
/// parsing a version.
pub open spec fn is_version_prefix(c: char) -> bool {
    c == '^' || c == '~' || c == '=' || c == 'v'
}

/// A version requirement with its leading range markers stripped.
pub open spec fn spec_clean_version(v: Seq<char>) -> Seq<char>
    decreases v.len(),
{
    if v.len() > 0 && is_version_prefix(v.first()) {
        spec_clean_version(v.drop_first())
    } else {
        v
    }
}

/// Strips leading range markers from a version requirement.
fn clean_version(v: &str) -> (r: String)
    ensures
        r@ == spec_clean_version(v@),
{
    let n = v.unicode_len();
    let mut i: usize = 0;
    proof {
        assert(v@.subrange(0 as int, n as int) =~= v@);
    }
    while i < n
        invariant
            n == v@.len(),
            0 <= i <= n,
            spec_clean_version(v@) == spec_clean_version(v@.subrange(i as int, n as int)),
        decreases n - i,
    {
        let c = v.get_char(i);
        if !(c == '^' || c == '~' || c == '=' || c == 'v') {
            proof {
                assert(v@.subrange(i as int, n as int).first() == v@[i as int]);
            }
            return substring(v, i, n);
        }
        proof {
            assert(v@.subrange(i as int, n as int).first() == v@[i as int]);
            assert(v@.subrange(i as int, n as int).drop_first() =~= v@.subrange(
                i + 1,
                n as int,
            ));
        }
        i = i + 1;
    }
    proof {
        assert(v@.subrange(n as int, n as int) =~= Seq::<char>::empty());
    }
    substring(v, n, n)
}

/// The severity of a version difference: which of the three numbers
/// differs first, or unknown when either side is no semantic version.
pub open spec fn spec_severity(v1: Seq<char>, v2: Seq<char>) -> Seq<char> {
    match (semver_of(spec_clean_version(v1)), semver_of(spec_clean_version(v2))) {
        (Some(a), Some(b)) => if a.0 != b.0 {
            "Major"@
        } else if a.1 != b.1 {
            "Minor"@
        } else if a.2 != b.2 {
            "Patch"@
        } else {
            "Unknown"@
        },
        _ => "Unknown"@,
    }
}

/// The version a section pins for a package, by its first entry.
pub open spec fn lookup_dep(deps: Seq<(Seq<char>, Seq<char>)>, pkg: Seq<char>, j: int) -> Option<
    Seq<char>,
>
    decreases deps.len() - j,
{
    if j < 0 || j >= deps.len() {
        None
    } else if deps[j].0 == pkg {
        Some(deps[j].1)
    } else {
        lookup_dep(deps, pkg, j + 1)
    }
}

/// The warning one source entry gives rise to against the target
/// section: only a present package whose versions differ with major
/// severity is reported.
pub open spec fn spec_entry_warning(
    entry: (Seq<char>, Seq<char>),
    tgt: Seq<(Seq<char>, Seq<char>)>,
) -> Seq<WarningView> {
    match lookup_dep(tgt, entry.0, 0) {
        Some(tv) => if entry.1 != tv && spec_severity(entry.1, tv) == "Major"@ {
            seq![
                WarningView {
                    package_name: entry.0,
                    source_version: entry.1,
                    target_version: tv,
                    severity: "Major"@,
                },
            ]
        } else {
            Seq::empty()
        },
        None => Seq::empty(),
    }
}

/// The warnings one section pair gives rise to, source entries in order.
pub open spec fn spec_section_warnings(
    src: Seq<(Seq<char>, Seq<char>)>,
    tgt: Seq<(Seq<char>, Seq<char>)>,
) -> Seq<WarningView>
    decreases src.len(),
{
    if src.len() == 0 {
        Seq::empty()
    } else {
        spec_entry_warning(src.first(), tgt) + spec_section_warnings(src.drop_first(), tgt)
    }
}

/// The warnings two documents give rise to: their `dependencies` and
/// `devDependencies` sections compared in turn; a missing or unreadable
/// section contributes nothing.
pub open spec fn spec_scan_deps(src_json: Seq<char>, tgt_json: Seq<char>) -> Seq<WarningView> {
    let main = match (
        package_deps_of(src_json, "dependencies"@),
        package_deps_of(tgt_json, "dependencies"@),
    ) {
        (Some(s), Some(t)) => spec_section_warnings(s, t),
        _ => Seq::empty(),
    };
    let dev = match (
        package_deps_of(src_json, "devDependencies"@),
        package_deps_of(tgt_json, "devDependencies"@),
    ) {
        (Some(s), Some(t)) => spec_section_warnings(s, t),
        _ => Seq::empty(),
    };
    main + dev
}

/// Compares one section pair and appends the warnings found.
fn scan_section(
    src: &Vec<(String, String)>,
    tgt: &Vec<(String, String)>,
    out: &mut Vec<DependencyWarning>,
)
    ensures
        final(out).deep_view() == old(out).deep_view() + spec_section_warnings(
            src.deep_view(),
            tgt.deep_view(),
        ),
{
    let ghost base = old(out).deep_view();
    let n = src.len();
    let mut i: usize = 0;
    proof {
        assert(src.deep_view().skip(0) =~= src.deep_view());
        assert(base + spec_section_warnings(src.deep_view(), tgt.deep_view())
            =~= old(out).deep_view() + spec_section_warnings(src.deep_view(), tgt.deep_view()));
    }
    while i < n
        invariant
            n == src@.len(),
            0 <= i <= n,
            base + spec_section_warnings(src.deep_view(), tgt.deep_view()) == out.deep_view()
                + spec_section_warnings(src.deep_view().skip(i as int), tgt.deep_view()),
        decreases n - i,
    {
        proof {
            assert(src.deep_view().skip(i as int).first() == src.deep_view()[i as int]);
            assert(src.deep_view().skip(i as int).drop_first() =~= src.deep_view().skip(
                i as int + 1,
            ));
        }
        let pkg = &src[i].0;
        let sv = &src[i].1;
        let found = lookup_version(tgt, pkg.as_str());
        let ghost out_before = out.deep_view();
        match found {
            Some(tv) => {
                if !str_eq(sv.as_str(), tv.as_str()) {
                    let severity = DependencyScanner::analyze_severity(sv.as_str(), tv.as_str());
                    if str_eq(severity.as_str(), "Major") {
                        let w = DependencyWarning {
                            package_name: pkg.clone(),
                            source_version: sv.clone(),
                            target_version: tv,
                            severity,
                        };
                        out.push(w);
                        proof {
                            assert(out.deep_view() =~= out_before + spec_entry_warning(
                                src.deep_view()[i as int],
                                tgt.deep_view(),
                            ));
                        }
                    }
                }
            },
            None => {},
        }
        proof {
            assert(out.deep_view() + spec_section_warnings(
                src.deep_view().skip(i as int + 1),
                tgt.deep_view(),
            ) =~= out_before + spec_section_warnings(
                src.deep_view().skip(i as int),
                tgt.deep_view(),
            ));
        }
        i = i + 1;
    }
    proof {
        assert(src.deep_view().skip(n as int) =~= Seq::<(Seq<char>, Seq<char>)>::empty());
        assert(out.deep_view() + Seq::<WarningView>::empty() =~= out.deep_view());
    }
}

/// Looks a package up in a section, first entry wins.
fn lookup_version(deps: &Vec<(String, String)>, pkg: &str) -> (r: Option<String>)
    ensures
        r.deep_view() == lookup_dep(deps.deep_view(), pkg@, 0),
{
    let n = deps.len();
    let mut j: usize = 0;
    while j < n
        invariant
            n == deps@.len(),
            0 <= j <= n,
            lookup_dep(deps.deep_view(), pkg@, 0) == lookup_dep(deps.deep_view(), pkg@, j as int),
        decreases n - j,
    {
        if str_eq(deps[j].0.as_str(), pkg) {
            return Some(deps[j].1.clone());
        }
        j = j + 1;
    }
    None
}

impl DependencyScanner {
    /// The severity of a version difference, after stripping leading
    /// range markers from both sides.
    pub fn analyze_severity(v1: &str, v2: &str) -> (r: String)
        ensures
            r@ == spec_severity(v1@, v2@),
    {
        let c1 = clean_version(v1);
        let c2 = clean_version(v2);
        match (parse_semver(c1.as_str()), parse_semver(c2.as_str())) {
            (Some(a), Some(b)) => {
                if a.0 != b.0 {
                    String::from_str("Major")
                } else if a.1 != b.1 {
                    String::from_str("Minor")
                } else if a.2 != b.2 {
                    String::from_str("Patch")
                } else {
                    String::from_str("Unknown")
                }
            },
            _ => String::from_str("Unknown"),
        }
    }

    /// Scans two `package.json` documents for major version drift.  A
    /// side with no document, a document that does not parse, or a
    /// missing section contributes no warnings; the remaining sections
    /// are still compared.
    pub fn scan(source_pkg_json: Option<&str>, target_pkg_json: Option<&str>) -> (r: Result<
        Vec<DependencyWarning>,
        String,
    >)
        ensures
            r matches Ok(ws) && ws.deep_view() == (match (source_pkg_json, target_pkg_json) {
                (Some(s), Some(t)) => spec_scan_deps(s@, t@),
                _ => Seq::<WarningView>::empty(),
            }),
    {
        let mut warnings: Vec<DependencyWarning> = Vec::new();
        let (src, tgt) = match (source_pkg_json, target_pkg_json) {
            (Some(s), Some(t)) => (s, t),
            _ => {
                proof {
                    assert(warnings.deep_view() =~= Seq::<WarningView>::empty());
                }
                return Ok(warnings);
            },
        };
        let ghost expect = spec_scan_deps(src@, tgt@);
        match (parse_package_deps(src, "dependencies"), parse_package_deps(tgt, "dependencies")) {
            (Some(s_deps), Some(t_deps)) => {
                scan_section(&s_deps, &t_deps, &mut warnings);
            },
            _ => {},
        }
        let ghost after_main = warnings.deep_view();
        match (
            parse_package_deps(src, "devDependencies"),
            parse_package_deps(tgt, "devDependencies"),
        ) {
            (Some(s_deps), Some(t_deps)) => {
                scan_section(&s_deps, &t_deps, &mut warnings);
            },
            _ => {},
        }
        proof {
            assert(warnings.deep_view() =~= expect);
        }
        Ok(warnings)
    }
}

} // verus!
