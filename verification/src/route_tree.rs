//! Route overview tree and rule testing: nests the saved route groups by
//! their parent links with each route under its group, tries a path
//! against a rule list, and orders glob preview matches.

use vstd::prelude::*;
use vstd::string::*;
use vstd::seq_lib::group_to_multiset_ensures;
use crate::diff::{DiffEngine, rule_target_base};
use crate::mapping::{MappingRule, base_prefix, glob_match, glob_match_of, glob_valid,
    map_target_relative, mapped_rel};
use crate::strutil::{lex_le, lemma_lex_le_total, lemma_lex_le_trans, sorted_strs, str_eq,
    str_le};

verus! {

/// One saved route group, as the store holds it.
#[derive(Debug, Clone)]
pub struct RouteGroupRecord {
    pub id: String,
    pub name: String,
    pub parent_id: Option<String>,
    pub sort_order: i32,
}

/// One saved route, narrowed to what the tree shows.
#[derive(Debug, Clone)]
pub struct RouteRecord {
    pub id: String,
    pub name: String,
    pub group_id: Option<String>,
    pub main_repo_id: Option<String>,
    pub slave_repo_id: Option<String>,
}

/// One route leaf of the tree.
#[derive(Debug, Clone)]
pub struct RouteNode {
    pub id: String,
    pub name: String,
    pub group_id: Option<String>,
    pub source_id: Option<String>,
    pub target_id: Option<String>,
}

/// One group of the tree, with its nested groups and its routes.
#[derive(Debug)]
pub struct RouteGroupNode {
    pub id: String,
    pub name: String,
    pub children: Vec<RouteGroupNode>,
    pub routes: Vec<RouteNode>,
}

/// Whether one leaf shows one route.
pub open spec fn route_node_shows(n: RouteNode, r: RouteRecord) -> bool {
    &&& n.id@ == r.id@
    &&& n.name@ == r.name@
    &&& n.group_id.deep_view() == r.group_id.deep_view()
    &&& n.source_id.deep_view() == r.main_repo_id.deep_view()
    &&& n.target_id.deep_view() == r.slave_repo_id.deep_view()
}

/// Whether `nodes` lists, in order, exactly the routes from index `i` on
/// whose group id matches `gid`.
pub open spec fn route_nodes_build(
    nodes: Seq<RouteNode>,
    routes: Seq<RouteRecord>,
    i: int,
    gid: Option<Seq<char>>,
) -> bool
    decreases routes.len() - i,
{
    if i < 0 || i >= routes.len() {
        nodes.len() == 0
    } else if routes[i].group_id.deep_view() == gid {
        nodes.len() >= 1 && route_node_shows(nodes.first(), routes[i]) && route_nodes_build(
            nodes.drop_first(),
            routes,
            i + 1,
            gid,
        )
    } else {
        route_nodes_build(nodes, routes, i + 1, gid)
    }
}

/// Whether `nodes` is, from group index `i` on, the level of the tree
/// under the parent `parent`.
pub open spec fn route_level_builds(
    groups: Seq<RouteGroupRecord>,
    routes: Seq<RouteRecord>,
    parent: Option<Seq<char>>,
    i: int,
    nodes: Seq<RouteGroupNode>,
    fuel: nat,
) -> bool
    decreases fuel, groups.len() - i, 0int,
{
    if i < 0 || i >= groups.len() {
        nodes.len() == 0
    } else if groups[i].parent_id.deep_view() == parent {
        &&& nodes.len() >= 1
        &&& {
            let n = nodes.first();
            &&& n.id@ == groups[i].id@
            &&& n.name@ == groups[i].name@
            &&& route_nodes_build(n.routes@, routes, 0, Some(groups[i].id@))
            &&& (if fuel == 0 {
                n.children@.len() == 0
            } else {
                route_level_builds(
                    groups,
                    routes,
                    Some(groups[i].id@),
                    0,
                    n.children@,
                    (fuel - 1) as nat,
                )
            })
        }
        &&& route_level_builds(groups, routes, parent, i + 1, nodes.drop_first(), fuel)
    } else {
        route_level_builds(groups, routes, parent, i + 1, nodes, fuel)
    }
}

/// Whether any route belongs to no group.
pub open spec fn has_orphan_routes(routes: Seq<RouteRecord>) -> bool {
    exists|i: int| 0 <= i < routes.len() && routes[i].group_id is None
}

/// Compares an optional owned id against an optional borrowed one.
fn opt_str_eq(a: &Option<String>, b: Option<&String>) -> (r: bool)
    ensures
        r == (a.deep_view() == b.deep_view()),
{
    match (a, b) {
        (Some(x), Some(y)) => {
            let e = str_eq(x.as_str(), y.as_str());
            proof {
                if !e {
                    assert(a.deep_view() != b.deep_view());
                }
            }
            e
        },
        (None, None) => true,
        _ => false,
    }
}

/// Copies an optional id.
fn opt_clone(a: &Option<String>) -> (r: Option<String>)
    ensures
        r.deep_view() == a.deep_view(),
{
    match a {
        Some(x) => Some(x.clone()),
        None => None,
    }
}

/// Collects the leaves for the routes of one group, in store order.
fn collect_route_nodes(routes: &Vec<RouteRecord>, i: usize, gid: Option<&String>) -> (r: Vec<
    RouteNode,
>)
    requires
        i <= routes@.len(),
    ensures
        route_nodes_build(r@, routes@, i as int, gid.deep_view()),
    decreases routes@.len() - i,
{
    if i >= routes.len() {
        Vec::new()
    } else {
        let rec = &routes[i];
        let matches = opt_str_eq(&rec.group_id, gid);
        let mut rest = collect_route_nodes(routes, i + 1, gid);
        if matches {
            let node = RouteNode {
                id: rec.id.clone(),
                name: rec.name.clone(),
                group_id: opt_clone(&rec.group_id),
                source_id: opt_clone(&rec.main_repo_id),
                target_id: opt_clone(&rec.slave_repo_id),
            };
            let ghost tail = rest@;
            rest.insert(0, node);
            proof {
                assert(rest@.first() == node);
                assert(rest@.drop_first() =~= tail);
                assert(route_node_shows(node, routes@[i as int]));
            }
        }
        rest
    }
}

/// Builds one level of the route tree from group index `i` on.
fn build_route_level(
    groups: &Vec<RouteGroupRecord>,
    routes: &Vec<RouteRecord>,
    parent: Option<&String>,
    i: usize,
    fuel: u64,
) -> (r: Vec<RouteGroupNode>)
    requires
        i <= groups@.len(),
    ensures
        route_level_builds(groups@, routes@, parent.deep_view(), i as int, r@, fuel as nat),
    decreases fuel, groups@.len() - i,
{
    if i >= groups.len() {
        Vec::new()
    } else {
        let g = &groups[i];
        let mut rest = build_route_level(groups, routes, parent, i + 1, fuel);
        if opt_str_eq(&g.parent_id, parent) {
            let children = if fuel == 0 {
                Vec::new()
            } else {
                build_route_level(groups, routes, Some(&g.id), 0, fuel - 1)
            };
            let group_routes = collect_route_nodes(routes, 0, Some(&g.id));
            let node = RouteGroupNode {
                id: g.id.clone(),
                name: g.name.clone(),
                children,
                routes: group_routes,
            };
            let ghost tail = rest@;
            rest.insert(0, node);
            proof {
                assert(rest@.first() == node);
                assert(rest@.drop_first() =~= tail);
            }
        } else {
            proof {
                assert(groups@[i as int].parent_id.deep_view() != parent.deep_view());
            }
        }
        rest
    }
}

/// Builds the route tree under `parent`: the nested groups in store
/// order with their routes, and at the very root a virtual bucket for
/// routes without a group, when any exist.  Nesting is bounded by the
/// number of groups, which covers every parent chain free of cycles.
pub fn build_tree(
    groups: &Vec<RouteGroupRecord>,
    routes: &Vec<RouteRecord>,
    parent_id: Option<&String>,
) -> (r: Vec<RouteGroupNode>)
    ensures
        parent_id matches Some(_) ==> route_level_builds(
            groups@,
            routes@,
            parent_id.deep_view(),
            0,
            r@,
            groups@.len() as nat,
        ),
        parent_id is None && !has_orphan_routes(routes@) ==> route_level_builds(
            groups@,
            routes@,
            None,
            0,
            r@,
            groups@.len() as nat,
        ),
        parent_id is None && has_orphan_routes(routes@) ==> r@.len() >= 1 && route_level_builds(
            groups@,
            routes@,
            None,
            0,
            r@.drop_last(),
            groups@.len() as nat,
        ) && {
            let root = r@.last();
            &&& root.id@ == "route_root_virtual"@
            &&& root.name@ == "Uncategorized"@
            &&& root.children@.len() == 0
            &&& route_nodes_build(root.routes@, routes@, 0, None)
        },
{
    let fuel: u64 = groups.len() as u64;
    let mut nodes = build_route_level(groups, routes, parent_id, 0, fuel);
    match parent_id {
        Some(_) => nodes,
        None => {
            let root_routes = collect_route_nodes(routes, 0, None);
            if root_routes.len() > 0 {
                proof {
                    lemma_route_nodes_nonempty_means_orphans(root_routes@, routes@, 0);
                }
                let ghost before = nodes@;
                let root = RouteGroupNode {
                    id: String::from_str("route_root_virtual"),
                    name: String::from_str("Uncategorized"),
                    children: Vec::new(),
                    routes: root_routes,
                };
                nodes.push(root);
                proof {
                    assert(nodes@.drop_last() =~= before);
                }
                nodes
            } else {
                proof {
                    lemma_no_orphan_routes_when_empty(root_routes@, routes@, 0);
                }
                nodes
            }
        },
    }
}

/// A non-empty orphan list means some route has no group.
proof fn lemma_route_nodes_nonempty_means_orphans(
    nodes: Seq<RouteNode>,
    routes: Seq<RouteRecord>,
    i: int,
)
    requires
        0 <= i <= routes.len(),
        route_nodes_build(nodes, routes, i, None),
        nodes.len() > 0,
    ensures
        exists|k: int| i <= k < routes.len() && routes[k].group_id is None,
    decreases routes.len() - i,
{
    if i < routes.len() {
        if routes[i].group_id.deep_view() == None::<Seq<char>> {
            assert(routes[i].group_id is None);
        } else {
            lemma_route_nodes_nonempty_means_orphans(nodes, routes, i + 1);
        }
    }
}

/// An empty orphan list means every route has a group.
proof fn lemma_no_orphan_routes_when_empty(
    nodes: Seq<RouteNode>,
    routes: Seq<RouteRecord>,
    i: int,
)
    requires
        0 <= i <= routes.len(),
        route_nodes_build(nodes, routes, i, None),
        nodes.len() == 0,
    ensures
        forall|k: int| i <= k < routes.len() ==> !((#[trigger] routes[k]).group_id is None),
    decreases routes.len() - i,
{
    if i < routes.len() {
        lemma_no_orphan_routes_when_empty(nodes, routes, i + 1);
        if routes[i].group_id is None {
            assert(routes[i].group_id.deep_view() == None::<Seq<char>>);
            assert(nodes.len() >= 1);
        }
    }
}

/// What a rule test reports: whether some rule matched, which one, and
/// the sketched target.
#[derive(Debug)]
pub struct TestMatchResult {
    pub matched: bool,
    pub rule_index: Option<usize>,
    pub target_path: Option<String>,
}

/// The first rule whose glob is well-formed and matches the path; rules
/// with ill-formed globs are skipped.
pub open spec fn spec_first_match(rules: Seq<MappingRule>, path: Seq<char>, i: int) -> Option<
    int,
>
    decreases rules.len() - i,
{
    if i < 0 || i >= rules.len() {
        None
    } else if glob_valid(rules[i].source@) && glob_match_of(rules[i].source@, path) {
        Some(i)
    } else {
        spec_first_match(rules, path, i + 1)
    }
}

/// Tries a path against the rules in order and reports the first rule
/// whose glob matches, with the target path the resolver maps it to;
/// ill-formed globs are skipped rather than failing the test.
pub fn test_route_mapping(path: &str, rules: &Vec<MappingRule>) -> (r: TestMatchResult)
    ensures
        spec_first_match(rules@, path@, 0) matches Some(i) ==> r.matched && (r.rule_index
            matches Some(j) && j == i) && (r.target_path matches Some(t) && t@ == mapped_rel(
            base_prefix(rules@[i].source@),
            rule_target_base(rules@[i]),
            path@,
        )),
        spec_first_match(rules@, path@, 0) is None ==> !r.matched && r.rule_index is None
            && r.target_path is None,
{
    let n = rules.len();
    let mut i: usize = 0;
    while i < n
        invariant
            n == rules@.len(),
            0 <= i <= n,
            spec_first_match(rules@, path@, 0) == spec_first_match(rules@, path@, i as int),
        decreases n - i,
    {
        let rule = &rules[i];
        let m = glob_match(rule.source.as_str(), path);
        let matched = match m {
            Some(b) => b,
            None => false,
        };
        if matched {
            let bs = DiffEngine::extract_glob_base(rule.source.as_str());
            let bd = if rule.target.as_str().unicode_len() == 0 {
                DiffEngine::extract_glob_base(rule.source.as_str())
            } else {
                DiffEngine::extract_glob_base(rule.target.as_str())
            };
            proof {
                assert(bd@ == rule_target_base(rules@[i as int]));
            }
            let t = map_target_relative(bs.as_str(), bd.as_str(), path);
            return TestMatchResult {
                matched: true,
                rule_index: Some(i),
                target_path: Some(t),
            };
        }
        i = i + 1;
    }
    TestMatchResult { matched: false, rule_index: None, target_path: None }
}

/// The files of a repository that a glob preview matched, ordered, with
/// the count before the display limit was applied.
#[derive(Debug)]
pub struct GlobMatchResult {
    pub matches: Vec<String>,
    pub total: usize,
}

/// The position before the first entry above `x` in an ordered list.
fn find_insert_pos(v: &Vec<String>, x: &str) -> (p: usize)
    ensures
        p <= v@.len(),
        forall|j: int| 0 <= j < p ==> lex_le((#[trigger] v@[j])@, x@),
        p < v@.len() ==> !lex_le(v@[p as int]@, x@),
{
    let n = v.len();
    let mut p: usize = 0;
    while p < n
        invariant
            n == v@.len(),
            0 <= p <= n,
            forall|j: int| 0 <= j < p ==> lex_le((#[trigger] v@[j])@, x@),
        decreases n - p,
    {
        if !str_le(v[p].as_str(), x) {
            return p;
        }
        p = p + 1;
    }
    p
}

/// Inserts a path into an ordered list, keeping the order.
fn insert_sorted(v: &mut Vec<String>, x: String)
    requires
        sorted_strs(old(v)@),
    ensures
        sorted_strs(final(v)@),
        final(v)@.to_multiset() == old(v)@.to_multiset().insert(x),
        final(v)@.len() == old(v)@.len() + 1,
{
    let n = v.len();
    let p = find_insert_pos(v, x.as_str());
    proof {
        if p < n {
            lemma_lex_le_total(v@[p as int]@, x@, 0);
            assert(lex_le(x@, v@[p as int]@));
        }
        assert forall|j: int| p <= j < n implies lex_le(x@, (#[trigger] v@[j])@) by {
            if j == p {
            } else {
                assert(lex_le(v@[p as int]@, v@[j]@));
                lemma_lex_le_trans(x@, v@[p as int]@, v@[j]@, 0);
            }
        };
    }
    let ghost before = v@;
    v.insert(p, x);
    proof {
        broadcast use group_to_multiset_ensures;

        assert(v@.remove(p as int) =~= before);
        assert(v@.to_multiset().remove(x) =~= before.to_multiset());
        assert(v@[p as int] == x);
        assert(v@.to_multiset().contains(x));
        assert(v@.to_multiset() =~= before.to_multiset().insert(x));
        assert forall|i: int, j: int| 0 <= i < j < v@.len() implies lex_le(
            (#[trigger] v@[i])@,
            (#[trigger] v@[j])@,
        ) by {
            if j < p {
            } else if i < p && j == p {
            } else if i < p && j > p {
                assert(v@[j] == before[j - 1]);
            } else if i == p {
                assert(v@[j] == before[j - 1]);
            } else {
                assert(v@[i] == before[i - 1] && v@[j] == before[j - 1]);
            }
        };
    }
}

/// Sorts preview matches lexicographically.
pub fn sort_paths(v: &Vec<String>) -> (r: Vec<String>)
    ensures
        sorted_strs(r@),
        r@.to_multiset() == v@.to_multiset(),
{
    let n = v.len();
    let mut out: Vec<String> = Vec::new();
    let mut i: usize = 0;
    proof {
        broadcast use group_to_multiset_ensures;

        assert(v@.take(0) =~= Seq::<String>::empty());
        assert(out@.to_multiset() =~= v@.take(0).to_multiset());
    }
    while i < n
        invariant
            n == v@.len(),
            0 <= i <= n,
            sorted_strs(out@),
            out@.to_multiset() == v@.take(i as int).to_multiset(),
        decreases n - i,
    {
        let x = v[i].clone();
        insert_sorted(&mut out, x);
        proof {
            broadcast use group_to_multiset_ensures;

            assert(v@.take(i as int + 1) =~= v@.take(i as int).push(v@[i as int]));
        }
        i = i + 1;
    }
    proof {
        assert(v@.take(n as int) =~= v@);
    }
    out
}

/// Orders the matched paths, remembers the full count, and keeps at most
/// two hundred entries for display.
pub fn limit_glob_matches(matches: &Vec<String>) -> (r: GlobMatchResult)
    ensures
        r.total == matches@.len(),
        sorted_strs(r.matches@),
        r.matches@.len() == (if matches@.len() > 200 {
            200int
        } else {
            matches@.len() as int
        }),
        exists|s: Seq<String>|
            #![all_triggers]
            s.to_multiset() == matches@.to_multiset() && sorted_strs(s) && r.matches@ == s.take(
                r.matches@.len() as int,
            ),
{
    let mut sorted = sort_paths(matches);
    let total = sorted.len();
    proof {
        broadcast use group_to_multiset_ensures;

        assert(sorted@.len() == sorted@.to_multiset().len());
        assert(matches@.len() == matches@.to_multiset().len());
    }
    if sorted.len() > 200 {
        let ghost full = sorted@;
        sorted.truncate(200);
        proof {
            broadcast use group_to_multiset_ensures;

            assert(sorted@ =~= full.take(200));
            assert forall|i: int, j: int| 0 <= i < j < sorted@.len() implies lex_le(
                (#[trigger] sorted@[i])@,
                (#[trigger] sorted@[j])@,
            ) by {
                assert(sorted@[i] == full[i] && sorted@[j] == full[j]);
            };
        }
        proof {
            assert(full.to_multiset() == matches@.to_multiset() && sorted_strs(full) && sorted@
                == full.take(sorted@.len() as int));
        }
        GlobMatchResult { matches: sorted, total }
    } else {
        proof {
            assert(sorted@.take(sorted@.len() as int) =~= sorted@);
            assert(sorted@.to_multiset() == matches@.to_multiset() && sorted_strs(sorted@)
                && sorted@ == sorted@.take(sorted@.len() as int));
        }
        GlobMatchResult { matches: sorted, total }
    }
}

} // verus!
