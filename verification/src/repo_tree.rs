//! Repository overview tree: nests the saved groups by their parent
//! links and attaches each repository to its group, with a virtual
//! bucket at the root for repositories that belong to no group.

use vstd::prelude::*;
use vstd::string::*;
use crate::strutil::str_eq;

verus! {

/// One saved repository group, as the store holds it.
#[derive(Debug, Clone)]
pub struct RepoGroupRecord {
    pub id: String,
    pub name: String,
    pub parent_id: Option<String>,
    pub sort_order: i32,
}

/// One saved repository, narrowed to what the tree shows.
#[derive(Debug, Clone)]
pub struct RepoRecord {
    pub id: String,
    pub name: String,
    pub local_path: String,
    pub group_id: Option<String>,
    pub pinned: bool,
}

/// One repository leaf of the tree.
#[derive(Debug, Clone)]
pub struct RepoNode {
    pub id: String,
    pub name: String,
    pub path: String,
    pub group_id: Option<String>,
    pub pinned: bool,
}

/// One group of the tree, with its nested groups and its repositories.
#[derive(Debug)]
pub struct GroupNode {
    pub id: String,
    pub name: String,
    pub children: Vec<GroupNode>,
    pub repos: Vec<RepoNode>,
}

/// Whether one leaf shows one repository.
pub open spec fn repo_node_shows(n: RepoNode, r: RepoRecord) -> bool {
    &&& n.id@ == r.id@
    &&& n.name@ == r.name@
    &&& n.path@ == r.local_path@
    &&& n.group_id.deep_view() == r.group_id.deep_view()
    &&& n.pinned == r.pinned
}

/// Whether `nodes` lists, in order, exactly the repositories from index
/// `i` on whose group id matches `gid`.
pub open spec fn repo_nodes_build(
    nodes: Seq<RepoNode>,
    repos: Seq<RepoRecord>,
    i: int,
    gid: Option<Seq<char>>,
) -> bool
    decreases repos.len() - i,
{
    if i < 0 || i >= repos.len() {
        nodes.len() == 0
    } else if repos[i].group_id.deep_view() == gid {
        nodes.len() >= 1 && repo_node_shows(nodes.first(), repos[i]) && repo_nodes_build(
            nodes.drop_first(),
            repos,
            i + 1,
            gid,
        )
    } else {
        repo_nodes_build(nodes, repos, i + 1, gid)
    }
}

/// Whether `nodes` is, from group index `i` on, the level of the tree
/// under the parent `parent`: one node per group whose parent matches,
/// carrying its repositories and - while `fuel` lasts - its subtree.
pub open spec fn level_builds(
    groups: Seq<RepoGroupRecord>,
    repos: Seq<RepoRecord>,
    parent: Option<Seq<char>>,
    i: int,
    nodes: Seq<GroupNode>,
    fuel: nat,
) -> bool
    decreases fuel, repos.len() + groups.len() - i, 0int,
{
    if i < 0 || i >= groups.len() {
        nodes.len() == 0
    } else if groups[i].parent_id.deep_view() == parent {
        &&& nodes.len() >= 1
        &&& {
            let n = nodes.first();
            &&& n.id@ == groups[i].id@
            &&& n.name@ == groups[i].name@
            &&& repo_nodes_build(n.repos@, repos, 0, Some(groups[i].id@))
            &&& (if fuel == 0 {
                n.children@.len() == 0
            } else {
                level_builds(
                    groups,
                    repos,
                    Some(groups[i].id@),
                    0,
                    n.children@,
                    (fuel - 1) as nat,
                )
            })
        }
        &&& level_builds(groups, repos, parent, i + 1, nodes.drop_first(), fuel)
    } else {
        level_builds(groups, repos, parent, i + 1, nodes, fuel)
    }
}

/// Whether any repository belongs to no group.
pub open spec fn has_orphan_repos(repos: Seq<RepoRecord>) -> bool {
    exists|i: int| 0 <= i < repos.len() && repos[i].group_id is None
}

/// Compares an optional owned id against an optional borrowed one.
fn opt_str_eq(a: &Option<String>, b: Option<&String>) -> (r: bool)
    ensures
        r == (a.deep_view() == b.deep_view()),
{
    match (a, b) {
        (Some(x), Some(y)) => {
            let e = str_eq(x.as_str(), y.as_str());
            proof {
                if !e {
                    assert(a.deep_view() != b.deep_view());
                }
            }
            e
        },
        (None, None) => true,
        _ => false,
    }
}

/// Collects the leaves for the repositories of one group, in store
/// order.
fn collect_repo_nodes(repos: &Vec<RepoRecord>, i: usize, gid: &String) -> (r: Vec<RepoNode>)
    requires
        i <= repos@.len(),
    ensures
        repo_nodes_build(r@, repos@, i as int, Some(gid@)),
    decreases repos@.len() - i,
{
    if i >= repos.len() {
        Vec::new()
    } else {
        let rec = &repos[i];
        let matches = match &rec.group_id {
            Some(g) => str_eq(g.as_str(), gid.as_str()),
            None => false,
        };
        let mut rest = collect_repo_nodes(repos, i + 1, gid);
        if matches {
            let gid_copy = match &rec.group_id {
                Some(g) => Some(g.clone()),
                None => None,
            };
            let node = RepoNode {
                id: rec.id.clone(),
                name: rec.name.clone(),
                path: rec.local_path.clone(),
                group_id: gid_copy,
                pinned: rec.pinned,
            };
            let ghost tail = rest@;
            rest.insert(0, node);
            proof {
                assert(rest@.first() == node);
                assert(rest@.drop_first() =~= tail);
                assert(repo_node_shows(node, repos@[i as int]));
            }
        } else {
            proof {
                assert(repos@[i as int].group_id.deep_view() != Some(gid@));
            }
        }
        rest
    }
}

/// Collects the leaves for the repositories that belong to no group.
fn collect_orphan_repo_nodes(repos: &Vec<RepoRecord>, i: usize) -> (r: Vec<RepoNode>)
    requires
        i <= repos@.len(),
    ensures
        repo_nodes_build(r@, repos@, i as int, None),
    decreases repos@.len() - i,
{
    if i >= repos.len() {
        Vec::new()
    } else {
        let rec = &repos[i];
        let mut rest = collect_orphan_repo_nodes(repos, i + 1);
        match &rec.group_id {
            Some(_) => {
                proof {
                    assert(repos@[i as int].group_id.deep_view() != None::<Seq<char>>);
                }
                rest
            },
            None => {
                let node = RepoNode {
                    id: rec.id.clone(),
                    name: rec.name.clone(),
                    path: rec.local_path.clone(),
                    group_id: None,
                    pinned: rec.pinned,
                };
                let ghost tail = rest@;
                rest.insert(0, node);
                proof {
                    assert(rest@.first() == node);
                    assert(rest@.drop_first() =~= tail);
                    assert(repo_node_shows(node, repos@[i as int]));
                }
                rest
            },
        }
    }
}

/// Builds one level of the tree from group index `i` on.
fn build_level(
    groups: &Vec<RepoGroupRecord>,
    repos: &Vec<RepoRecord>,
    parent: Option<&String>,
    i: usize,
    fuel: u64,
) -> (r: Vec<GroupNode>)
    requires
        i <= groups@.len(),
    ensures
        level_builds(groups@, repos@, parent.deep_view(), i as int, r@, fuel as nat),
    decreases fuel, groups@.len() + repos@.len() - i,
{
    if i >= groups.len() {
        Vec::new()
    } else {
        let g = &groups[i];
        let mut rest = build_level(groups, repos, parent, i + 1, fuel);
        if opt_str_eq(&g.parent_id, parent) {
            let children = if fuel == 0 {
                Vec::new()
            } else {
                build_level(groups, repos, Some(&g.id), 0, fuel - 1)
            };
            let group_repos = collect_repo_nodes(repos, 0, &g.id);
            let node = GroupNode {
                id: g.id.clone(),
                name: g.name.clone(),
                children,
                repos: group_repos,
            };
            let ghost tail = rest@;
            rest.insert(0, node);
            proof {
                assert(rest@.first() == node);
                assert(rest@.drop_first() =~= tail);
            }
        } else {
            proof {
                assert(groups@[i as int].parent_id.deep_view() != parent.deep_view());
            }
        }
        rest
    }
}

/// Builds the repository tree under `parent`: the nested groups in store
/// order with their repositories, and - at the very root - a virtual
/// bucket holding the repositories that belong to no group, when any
/// exist.  Nesting is bounded by the number of groups, which covers
/// every parent chain free of cycles.
pub fn build_tree(
    groups: &Vec<RepoGroupRecord>,
    repos: &Vec<RepoRecord>,
    parent_id: Option<&String>,
) -> (r: Vec<GroupNode>)
    ensures
        parent_id matches Some(_) ==> level_builds(
            groups@,
            repos@,
            parent_id.deep_view(),
            0,
            r@,
            groups@.len() as nat,
        ),
        parent_id is None && !has_orphan_repos(repos@) ==> level_builds(
            groups@,
            repos@,
            None,
            0,
            r@,
            groups@.len() as nat,
        ),
        parent_id is None && has_orphan_repos(repos@) ==> r@.len() >= 1 && level_builds(
            groups@,
            repos@,
            None,
            0,
            r@.drop_last(),
            groups@.len() as nat,
        ) && {
            let root = r@.last();
            &&& root.id@ == "root_virtual"@
            &&& root.name@ == "Uncategorized"@
            &&& root.children@.len() == 0
            &&& repo_nodes_build(root.repos@, repos@, 0, None)
        },
{
    let fuel: u64 = groups.len() as u64;
    let mut nodes = build_level(groups, repos, parent_id, 0, fuel);
    match parent_id {
        Some(_) => nodes,
        None => {
            let root_repos = collect_orphan_repo_nodes(repos, 0);
            if root_repos.len() > 0 {
                proof {
                    lemma_repo_nodes_nonempty_means_orphans(root_repos@, repos@, 0);
                }
                let ghost before = nodes@;
                let root = GroupNode {
                    id: String::from_str("root_virtual"),
                    name: String::from_str("Uncategorized"),
                    children: Vec::new(),
                    repos: root_repos,
                };
                nodes.push(root);
                proof {
                    assert(nodes@.drop_last() =~= before);
                }
                nodes
            } else {
                proof {
                    lemma_no_orphans_when_empty(root_repos@, repos@, 0);
                }
                nodes
            }
        },
    }
}

/// A non-empty orphan list means some repository has no group.
proof fn lemma_repo_nodes_nonempty_means_orphans(
    nodes: Seq<RepoNode>,
    repos: Seq<RepoRecord>,
    i: int,
)
    requires
        0 <= i <= repos.len(),
        repo_nodes_build(nodes, repos, i, None),
        nodes.len() > 0,
    ensures
        exists|k: int| i <= k < repos.len() && repos[k].group_id is None,
    decreases repos.len() - i,
{
    if i < repos.len() {
        if repos[i].group_id.deep_view() == None::<Seq<char>> {
            assert(repos[i].group_id is None);
        } else {
            lemma_repo_nodes_nonempty_means_orphans(nodes, repos, i + 1);
        }
    }
}

/// An empty orphan list means every repository has a group.
proof fn lemma_no_orphans_when_empty(nodes: Seq<RepoNode>, repos: Seq<RepoRecord>, i: int)
    requires
        0 <= i <= repos.len(),
        repo_nodes_build(nodes, repos, i, None),
        nodes.len() == 0,
    ensures
        forall|k: int| i <= k < repos.len() ==> !((#[trigger] repos[k]).group_id is None),
    decreases repos.len() - i,
{
    if i < repos.len() {
        lemma_no_orphans_when_empty(nodes, repos, i + 1);
        if repos[i].group_id is None {
            assert(repos[i].group_id.deep_view() == None::<Seq<char>>);
            assert(nodes.len() >= 1);
        }
    }
}

} // verus!
