//! The dependency graph: pinned nodes keyed by `(name, version id)`, the
//! insertion policy that keeps the key unique, and the folder layout of an
//! installed node.

use vstd::prelude::*;
use crate::names::{PackageNames, NameView};
use crate::source::{DependencySpecifiers, DependencyType, PackageRefs};
use crate::target::{TargetKind, spec_packages_folder};
use crate::version::{Version, VersionId, spec_render_version};

verus! {

/// A node of the pinned dependency graph.
#[derive(Clone, Debug)]
pub struct DependencyGraphNode {
    /// The alias, specifier and declared type from the manifest, present
    /// exactly when the node is a direct dependency of the project.
    pub direct: Option<(String, DependencySpecifiers, DependencyType)>,
    /// The node's own dependencies: child name to child version id and the
    /// alias the child is required by.
    pub dependencies: Vec<(PackageNames, (VersionId, String))>,
    /// The resolved type, after transformations such as peer promotion.
    pub resolved_ty: DependencyType,
    /// The package reference that pins and downloads this node.
    pub pkg_ref: PackageRefs,
}

/// The key a version id contributes to a graph key: the rendered version
/// and the target tag.
pub open spec fn vid_key(v: VersionId) -> (Seq<char>, TargetKind) {
    (spec_render_version(v.version), v.target)
}

/// One graph entry: a keyed node.
#[derive(Clone, Debug)]
pub struct GraphEntry {
    /// The package name.
    pub name: PackageNames,
    /// The version identifier.
    pub version: VersionId,
    /// The node.
    pub node: DependencyGraphNode,
}

/// The key of an entry.
pub open spec fn entry_key(e: GraphEntry) -> (NameView, (Seq<char>, TargetKind)) {
    (e.name.view_v(), vid_key(e.version))
}

/// A pinned dependency graph: a keyed list of nodes whose keys are unique.
#[derive(Clone, Debug)]
pub struct DependencyGraph {
    /// The entries, in insertion order.
    pub nodes: Vec<GraphEntry>,
}

impl DependencyGraph {
    /// At most one node exists for any `(name, version id)` pair.
    pub open spec fn wf(&self) -> bool {
        forall|i: int, j: int| 0 <= i < j < self.nodes@.len()
            ==> entry_key(#[trigger] self.nodes@[i]) != entry_key(#[trigger] self.nodes@[j])
    }

    /// Whether the graph holds a node with this key.
    pub open spec fn spec_has_key(&self, key: (NameView, (Seq<char>, TargetKind))) -> bool {
        exists|i: int| 0 <= i < self.nodes@.len()
            && entry_key(#[trigger] self.nodes@[i]) == key
    }

    /// The position of the node with this key.
    pub open spec fn spec_index_of(&self, key: (NameView, (Seq<char>, TargetKind))) -> int {
        choose|i: int| 0 <= i < self.nodes@.len()
            && entry_key(#[trigger] self.nodes@[i]) == key
    }

    /// An empty graph.
    pub fn new() -> (r: DependencyGraph)
        ensures
            r.nodes@.len() == 0,
            r.wf(),
    {
        DependencyGraph { nodes: Vec::new() }
    }

    /// Finds the position of the node with the given name and version id.
    pub fn find(&self, name: &PackageNames, version: &VersionId) -> (r: Option<usize>)
        ensures
            r matches Some(i) ==> i < self.nodes@.len()
                && entry_key(self.nodes@[i as int]) == (name.view_v(), vid_key(*version)),
            r is None ==> !self.spec_has_key((name.view_v(), vid_key(*version))),
    {
        let mut i: usize = 0;
        while i < self.nodes.len()
            invariant
                i <= self.nodes@.len(),
                forall|j: int| 0 <= j < i
                    ==> entry_key(#[trigger] self.nodes@[j]) != (name.view_v(), vid_key(*version)),
            decreases self.nodes@.len() - i,
        {
            let e = &self.nodes[i];
            if e.name == *name && e.version.eq_id(version) {
                return Some(i);
            }
            i += 1;
        }
        None
    }
}

/// Exactly one node exists per key: any two positions holding the same key
/// coincide.
pub proof fn lemma_one_node_per_key(g: DependencyGraph, i: int, j: int)
    requires
        g.wf(),
        0 <= i < g.nodes@.len(),
        0 <= j < g.nodes@.len(),
        entry_key(g.nodes@[i]) == entry_key(g.nodes@[j]),
    ensures
        i == j,
{
    if i < j {
        assert(entry_key(g.nodes@[i]) != entry_key(g.nodes@[j]));
    } else if j < i {
        assert(entry_key(g.nodes@[j]) != entry_key(g.nodes@[i]));
    }
}

/// What `insert_node` does when the key is new: the node is appended, with
/// `direct` cleared for non-top-level insertions.
pub open spec fn inserted_fresh(
    g0: DependencyGraph,
    g1: DependencyGraph,
    name: PackageNames,
    version: VersionId,
    node: DependencyGraphNode,
    is_top_level: bool,
) -> bool {
    &&& g1.nodes@.len() == g0.nodes@.len() + 1
    &&& forall|j: int| 0 <= j < g0.nodes@.len() ==> g1.nodes@[j] == g0.nodes@[j]
    &&& g1.nodes@.last().name == name
    &&& g1.nodes@.last().version == version
    &&& g1.nodes@.last().node.dependencies == node.dependencies
    &&& g1.nodes@.last().node.resolved_ty == node.resolved_ty
    &&& g1.nodes@.last().node.pkg_ref == node.pkg_ref
    &&& g1.nodes@.last().node.direct == (if is_top_level { node.direct } else {
        None::<(String, DependencySpecifiers, DependencyType)>
    })
}

/// Inserts a node under `(name, version)`, keeping one node per key:
/// - a `direct` mark is dropped unless the insertion is top-level;
/// - a new key is appended;
/// - an existing node keeps its place; only a missing `direct` is promoted
///   from the incoming node, and a duplicate `direct` keeps the first one.
pub fn insert_node(
    graph: &mut DependencyGraph,
    name: PackageNames,
    version: VersionId,
    node: DependencyGraphNode,
    is_top_level: bool,
)
    requires
        old(graph).wf(),
    ensures
        final(graph).wf(),
        !old(graph).spec_has_key((name.view_v(), vid_key(version)))
            ==> inserted_fresh(*old(graph), *final(graph), name, version, node, is_top_level),
        old(graph).spec_has_key((name.view_v(), vid_key(version))) ==> {
            let i = old(graph).spec_index_of((name.view_v(), vid_key(version)));
            let e0 = old(graph).nodes@[i];
            &&& final(graph).nodes@.len() == old(graph).nodes@.len()
            &&& forall|j: int| 0 <= j < old(graph).nodes@.len() && j != i
                ==> final(graph).nodes@[j] == old(graph).nodes@[j]
            &&& final(graph).nodes@[i].name == e0.name
            &&& final(graph).nodes@[i].version == e0.version
            &&& final(graph).nodes@[i].node.dependencies == e0.node.dependencies
            &&& final(graph).nodes@[i].node.resolved_ty == e0.node.resolved_ty
            &&& final(graph).nodes@[i].node.pkg_ref == e0.node.pkg_ref
            &&& final(graph).nodes@[i].node.direct == (
                if e0.node.direct is None && is_top_level && node.direct is Some {
                    node.direct
                } else {
                    e0.node.direct
                })
        },
        final(graph).spec_has_key((name.view_v(), vid_key(version))),
{
    let mut node = node;
    if !is_top_level {
        // A non-top-level context must not record a direct dependency.
        node.direct = None;
    }
    let found = graph.find(&name, &version);
    match found {
        None => {
            let ghost g0 = *graph;
            graph.nodes.push(GraphEntry { name, version, node });
            proof {
                assert(graph.nodes@.last() == GraphEntry {
                    name: graph.nodes@.last().name,
                    version: graph.nodes@.last().version,
                    node: graph.nodes@.last().node,
                });
                assert forall|i: int, j: int| 0 <= i < j < graph.nodes@.len()
                    implies entry_key(#[trigger] graph.nodes@[i])
                        != entry_key(#[trigger] graph.nodes@[j]) by {
                    if j == graph.nodes@.len() - 1 {
                        assert(!g0.spec_has_key(entry_key(graph.nodes@[j])));
                        assert(graph.nodes@[i] == g0.nodes@[i]);
                    }
                }
            }
        },
        Some(i) => {
            let ghost g0 = *graph;
            let ghost key = (name.view_v(), vid_key(version));
            let has_new = node.direct.is_some();
            let existing_has = graph.nodes[i].node.direct.is_some();
            if !existing_has && has_new {
                let mut e = graph.nodes.remove(i);
                e.node.direct = node.direct;
                graph.nodes.insert(i, e);
                proof {
                    assert(graph.nodes@.len() == g0.nodes@.len());
                    assert forall|j: int| 0 <= j < g0.nodes@.len() && j != i
                        implies graph.nodes@[j] == g0.nodes@[j] by {
                        if j < i {
                            assert(graph.nodes@[j] == g0.nodes@.remove(i as int)[j]);
                        } else {
                            assert(graph.nodes@[j] == g0.nodes@.remove(i as int)[j - 1]);
                        }
                    }
                    assert(entry_key(graph.nodes@[i as int]) == entry_key(g0.nodes@[i as int]));
                }
            }
            proof {
                let i1 = g0.spec_index_of(key);
                assert(0 <= i1 < g0.nodes@.len() && entry_key(g0.nodes@[i1]) == key);
                lemma_one_node_per_key(g0, i as int, i1);
                assert forall|a: int, b: int| 0 <= a < b < graph.nodes@.len()
                    implies entry_key(#[trigger] graph.nodes@[a])
                        != entry_key(#[trigger] graph.nodes@[b]) by {
                    assert(entry_key(graph.nodes@[a]) == entry_key(g0.nodes@[a]));
                    assert(entry_key(graph.nodes@[b]) == entry_key(g0.nodes@[b]));
                }
                assert(entry_key(graph.nodes@[i as int]) == key);
            }
        },
    }
}

/// A downloaded node: a graph node together with the target descriptor the
/// source reported at download time.
#[derive(Clone, Debug)]
pub struct DownloadedDependencyGraphNode {
    /// The resolved target descriptor.
    pub target: crate::index::Target,
    /// The underlying graph node.
    pub node: DependencyGraphNode,
}

/// One entry of a downloaded graph.
#[derive(Clone, Debug)]
pub struct DownloadedEntry {
    /// The package name.
    pub name: PackageNames,
    /// The version identifier.
    pub version: VersionId,
    /// The downloaded node.
    pub node: DownloadedDependencyGraphNode,
}

/// A graph of downloaded nodes.
#[derive(Clone, Debug)]
pub struct DownloadedGraph {
    /// The entries, in insertion order.
    pub nodes: Vec<DownloadedEntry>,
}

impl DownloadedGraph {
    /// At most one node exists for any `(name, version id)` pair.
    pub open spec fn wf(&self) -> bool {
        forall|i: int, j: int| 0 <= i < j < self.nodes@.len()
            ==> downloaded_key(#[trigger] self.nodes@[i]) != downloaded_key(#[trigger] self.nodes@[j])
    }

    /// An empty graph.
    pub fn new() -> (r: DownloadedGraph)
        ensures
            r.nodes@.len() == 0,
            r.wf(),
    {
        DownloadedGraph { nodes: Vec::new() }
    }

    /// Finds the position of the node with the given name and version id.
    pub fn find(&self, name: &PackageNames, version: &VersionId) -> (r: Option<usize>)
        ensures
            r matches Some(i) ==> i < self.nodes@.len()
                && downloaded_key(self.nodes@[i as int]) == (name.view_v(), vid_key(*version)),
            r is None ==> forall|j: int| 0 <= j < self.nodes@.len()
                ==> downloaded_key(#[trigger] self.nodes@[j]) != (name.view_v(), vid_key(*version)),
    {
        let mut i: usize = 0;
        while i < self.nodes.len()
            invariant
                i <= self.nodes@.len(),
                forall|j: int| 0 <= j < i
                    ==> downloaded_key(#[trigger] self.nodes@[j])
                        != (name.view_v(), vid_key(*version)),
            decreases self.nodes@.len() - i,
        {
            let e = &self.nodes[i];
            if e.name == *name && e.version.eq_id(version) {
                return Some(i);
            }
            i += 1;
        }
        None
    }
}

/// The key of a downloaded entry.
pub open spec fn downloaded_key(e: DownloadedEntry) -> (NameView, (Seq<char>, TargetKind)) {
    (e.name.view_v(), vid_key(e.version))
}

/// Exactly one downloaded node exists per key.
pub proof fn lemma_one_downloaded_per_key(g: DownloadedGraph, i: int, j: int)
    requires
        g.wf(),
        0 <= i < g.nodes@.len(),
        0 <= j < g.nodes@.len(),
        downloaded_key(g.nodes@[i]) == downloaded_key(g.nodes@[j]),
    ensures
        i == j,
{
    if i < j {
        assert(downloaded_key(g.nodes@[i]) != downloaded_key(g.nodes@[j]));
    } else if j < i {
        assert(downloaded_key(g.nodes@[j]) != downloaded_key(g.nodes@[i]));
    }
}

impl DependencyGraphNode {
    /// The folder, relative to the node's container, that transitive
    /// dependency shims are written into: the packages folder of the
    /// node's own target under the project's target for the current
    /// layout, and the container's parent for the legacy layout.
    pub fn base_folder(&self, version_id: &VersionId, project_target: TargetKind) -> (r: String)
        ensures
            r@ == if self.pkg_ref.spec_use_new_structure() {
                spec_packages_folder(version_id.target, project_target)
            } else {
                ".."@
            },
    {
        if self.pkg_ref.use_new_structure() {
            version_id.target.packages_folder(&project_target)
        } else {
            String::from_str("..")
        }
    }

    /// The folder the package's contents are stored in:
    /// `<path>/<scope+name>/<version>/<name>`.
    pub fn container_folder(&self, path: &str, name: &PackageNames, version: &Version) -> (r: String)
        ensures
            r@ == path@ + seq!['/'] + name.spec_escaped() + seq!['/']
                + spec_render_version(*version) + seq!['/'] + name.view_v().1,
    {
        let mut out = String::from_str(path);
        out.append("/");
        let escaped = name.escaped();
        out.append(escaped.as_str());
        out.append("/");
        let ver = version.render();
        out.append(ver.as_str());
        out.append("/");
        let (_, name_part) = name.as_str();
        out.append(name_part);
        proof {
            reveal_strlit("/");
            assert(out@ =~= path@ + seq!['/'] + name.spec_escaped() + seq!['/']
                + spec_render_version(*version) + seq!['/'] + name.view_v().1);
        }
        out
    }
}

} // verus!

verus! {

/// Records in the parent's node that it depends on `(child_name,
/// child_version)` under `alias`. A graph without the parent is left
/// unchanged.
pub fn add_edge(
    graph: &mut DependencyGraph,
    parent_name: &PackageNames,
    parent_version: &VersionId,
    child_name: PackageNames,
    child_version: VersionId,
    alias: String,
)
    requires
        old(graph).wf(),
    ensures
        final(graph).wf(),
        final(graph).nodes@.len() == old(graph).nodes@.len(),
        old(graph).spec_has_key((parent_name.view_v(), vid_key(*parent_version))) ==> {
            let i = old(graph).spec_index_of((parent_name.view_v(), vid_key(*parent_version)));
            let e0 = old(graph).nodes@[i];
            &&& forall|j: int| 0 <= j < old(graph).nodes@.len() && j != i
                ==> final(graph).nodes@[j] == old(graph).nodes@[j]
            &&& final(graph).nodes@[i].name == e0.name
            &&& final(graph).nodes@[i].version == e0.version
            &&& final(graph).nodes@[i].node.direct == e0.node.direct
            &&& final(graph).nodes@[i].node.resolved_ty == e0.node.resolved_ty
            &&& final(graph).nodes@[i].node.pkg_ref == e0.node.pkg_ref
            &&& final(graph).nodes@[i].node.dependencies@
                == e0.node.dependencies@.push((child_name, (child_version, alias)))
        },
        !old(graph).spec_has_key((parent_name.view_v(), vid_key(*parent_version)))
            ==> *final(graph) == *old(graph),
{
    let found = graph.find(parent_name, parent_version);
    match found {
        None => {},
        Some(i) => {
            let ghost g0 = *graph;
            let ghost key = (parent_name.view_v(), vid_key(*parent_version));
            let mut e = graph.nodes.remove(i);
            e.node.dependencies.push((child_name, (child_version, alias)));
            graph.nodes.insert(i, e);
            proof {
                assert(graph.nodes@.len() == g0.nodes@.len());
                assert forall|j: int| 0 <= j < g0.nodes@.len() && j != i
                    implies graph.nodes@[j] == g0.nodes@[j] by {
                    if j < i {
                        assert(graph.nodes@[j] == g0.nodes@.remove(i as int)[j]);
                    } else {
                        assert(graph.nodes@[j] == g0.nodes@.remove(i as int)[j - 1]);
                    }
                }
                let i1 = g0.spec_index_of(key);
                assert(0 <= i1 < g0.nodes@.len() && entry_key(g0.nodes@[i1]) == key);
                lemma_one_node_per_key(g0, i as int, i1);
                assert forall|a: int, b: int| 0 <= a < b < graph.nodes@.len()
                    implies entry_key(#[trigger] graph.nodes@[a])
                        != entry_key(#[trigger] graph.nodes@[b]) by {
                    assert(entry_key(graph.nodes@[a]) == entry_key(g0.nodes@[a]));
                    assert(entry_key(graph.nodes@[b]) == entry_key(g0.nodes@[b]));
                }
            }
        },
    }
}

} // verus!
