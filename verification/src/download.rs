//! The downloader's plan: which sources to refresh first, which container
//! every node goes into, and which nodes are written to disk at all. The
//! driver performs the traffic; the decisions are made and checked here.

use vstd::prelude::*;
use crate::graph::{DependencyGraph, DownloadedGraph, DownloadedEntry, vid_key};
use crate::linker::spec_container_segs;
use crate::names::PackageNames;
use crate::paths::segs_view;
use crate::source::{DependencyType, PackageSources, RefreshedSources, RefreshError, DownloadError};
use crate::target::{TargetKind, spec_packages_folder};
use crate::version::VersionId;

verus! {

/// Errors that can occur when downloading a graph.
#[derive(Debug)]
pub enum DownloadGraphError {
    /// The project manifest could not be decoded. Carries the decoder's
    /// message.
    ManifestDeserializationFailed(String),
    /// A package source could not be refreshed.
    RefreshFailed(RefreshError),
    /// The filesystem failed. Carries the driver's message.
    Io(String),
    /// A package could not be downloaded.
    DownloadFailed(DownloadError),
    /// Package contents could not be written. Carries the driver's
    /// message.
    WriteFailed(String),
}

/// One planned download: the node's identity, its container under the
/// project, and whether its contents are written to disk.
pub struct DownloadTask {
    /// The package name.
    pub name: PackageNames,
    /// The version identifier.
    pub version: VersionId,
    /// The container path segments under the project root.
    pub container: Vec<String>,
    /// Whether the contents go to disk; a development dependency in
    /// production mode is downloaded but not materialized.
    pub write: bool,
}

/// A download plan: sources to refresh first, then one task per node.
pub struct DownloadPlan {
    /// The sources that must be refreshed before any task runs, in order;
    /// only sources not already refreshed this run appear.
    pub refreshes: Vec<PackageSources>,
    /// One task per graph node, in graph order.
    pub tasks: Vec<DownloadTask>,
}

/// Plans the downloads of a pinned graph. Afterwards every node's source
/// is in the refreshed set; the tasks' containers follow the
/// packages-folder layout; and a task writes to disk exactly when writing
/// is requested and the node is not a development dependency being
/// skipped in production mode.
pub fn plan_downloads(
    graph: &DependencyGraph,
    project_target: TargetKind,
    refreshed: &mut RefreshedSources,
    prod: bool,
    write: bool,
) -> (r: DownloadPlan)
    ensures
        r.tasks@.len() == graph.nodes@.len(),
        forall|i: int| 0 <= i < graph.nodes@.len() ==> {
            let e = #[trigger] graph.nodes@[i];
            let t = r.tasks@[i];
            &&& t.name.view_v() == e.name.view_v()
            &&& vid_key(t.version) == vid_key(e.version)
            &&& segs_view(t.container@) == spec_container_segs(
                spec_packages_folder(project_target, e.version.target), e.name, e.version)
            &&& t.write == (write && !(prod && e.node.resolved_ty == DependencyType::Dev))
        },
        // Refresh happens before any download: after planning, every
        // node's source is in the refreshed set.
        forall|i: int| 0 <= i < graph.nodes@.len()
            ==> final(refreshed).spec_contains(
                (#[trigger] graph.nodes@[i]).node.pkg_ref.spec_source_key()),
        // Nothing is refreshed twice: a planned refresh was not in the
        // set when planning began.
        forall|j: int| 0 <= j < r.refreshes@.len()
            ==> !old(refreshed).spec_contains((#[trigger] r.refreshes@[j]).spec_key()),
        // And nothing else enters the set: afterwards it holds exactly the
        // old keys united with the nodes' source keys.
        forall|k: Seq<char>| old(refreshed).spec_contains(k)
            ==> final(refreshed).spec_contains(k),
        forall|k: Seq<char>| final(refreshed).spec_contains(k)
            ==> old(refreshed).spec_contains(k) || exists|i: int| 0 <= i < graph.nodes@.len()
                && (#[trigger] graph.nodes@[i]).node.pkg_ref.spec_source_key() == k,
{
    let mut refreshes: Vec<PackageSources> = Vec::new();
    let mut tasks: Vec<DownloadTask> = Vec::new();
    let mut i: usize = 0;
    while i < graph.nodes.len()
        invariant
            i <= graph.nodes@.len(),
            tasks@.len() == i,
            forall|a: int| 0 <= a < i ==> {
                let e = #[trigger] graph.nodes@[a];
                let t = tasks@[a];
                &&& t.name.view_v() == e.name.view_v()
                &&& vid_key(t.version) == vid_key(e.version)
                &&& segs_view(t.container@) == spec_container_segs(
                    spec_packages_folder(project_target, e.version.target), e.name, e.version)
                &&& t.write == (write && !(prod && e.node.resolved_ty == DependencyType::Dev))
            },
            forall|a: int| 0 <= a < i ==> refreshed.spec_contains(
                (#[trigger] graph.nodes@[a]).node.pkg_ref.spec_source_key()),
            forall|j: int| 0 <= j < refreshes@.len()
                ==> !old(refreshed).spec_contains((#[trigger] refreshes@[j]).spec_key()),
            forall|k: Seq<char>| old(refreshed).spec_contains(k)
                ==> refreshed.spec_contains(k),
            forall|k: Seq<char>| refreshed.spec_contains(k)
                ==> old(refreshed).spec_contains(k) || exists|a: int| 0 <= a < i
                    && (#[trigger] graph.nodes@[a]).node.pkg_ref.spec_source_key() == k,
        decreases graph.nodes@.len() - i,
    {
        let e = &graph.nodes[i];
        let source = e.node.pkg_ref.source();
        let ghost key = source.spec_key();
        let ghost before = *refreshed;
        let was_in = refreshed.contains(&source);
        if refreshed.insert(source) {
            let s2 = e.node.pkg_ref.source();
            proof {
                assert(!was_in);
            }
            refreshes.push(s2);
        }
        proof {
            assert forall|k: Seq<char>| refreshed.spec_contains(k)
                implies old(refreshed).spec_contains(k) || exists|a: int| 0 <= a < i + 1
                    && (#[trigger] graph.nodes@[a]).node.pkg_ref.spec_source_key() == k by {
                if !before.spec_contains(k) {
                    assert(k == key);
                    assert(graph.nodes@[i as int].node.pkg_ref.spec_source_key() == k);
                } else if !old(refreshed).spec_contains(k) {
                    let a = choose|a: int| 0 <= a < i
                        && (#[trigger] graph.nodes@[a]).node.pkg_ref.spec_source_key() == k;
                    assert(graph.nodes@[a].node.pkg_ref.spec_source_key() == k);
                }
            }
        }
        let container = crate::linker::container_segs(project_target, &e.name, &e.version);
        let task_write = write && !(prod && matches!(e.node.resolved_ty, DependencyType::Dev));
        let task = DownloadTask {
            name: e.name.clone_name(),
            version: e.version.clone_id(),
            container,
            write: task_write,
        };
        tasks.push(task);
        i += 1;
    }
    DownloadPlan { refreshes, tasks }
}

/// Whether a graph entry occurs in a sequence of entries.
pub open spec fn entry_in(e: DownloadedEntry, g: Seq<DownloadedEntry>) -> bool {
    exists|a: int| 0 <= a < g.len() && g[a] == e
}

/// An entry stays present when the sequence grows at the end.
proof fn lemma_entry_in_push(e: DownloadedEntry, g: Seq<DownloadedEntry>, x: DownloadedEntry)
    requires
        entry_in(e, g),
    ensures
        entry_in(e, g.push(x)),
{
    let a = choose|a: int| 0 <= a < g.len() && g[a] == e;
    assert(g.push(x)[a] == e);
}

/// Keeps every node in production mode except development ones; keeps the
/// graph unchanged otherwise. The in-memory graph the lockfile is written
/// from is the unfiltered one: filtering only governs what reaches disk
/// and the linker.
pub fn filter_prod(graph: DownloadedGraph, prod: bool) -> (r: DownloadedGraph)
    requires
        graph.wf(),
    ensures
        r.wf(),
        !prod ==> r.nodes@ == graph.nodes@,
        prod ==> {
            &&& forall|j: int| 0 <= j < r.nodes@.len()
                ==> (#[trigger] r.nodes@[j]).node.node.resolved_ty != DependencyType::Dev
            &&& forall|j: int| 0 <= j < r.nodes@.len()
                ==> entry_in(#[trigger] r.nodes@[j], graph.nodes@)
            &&& forall|i: int| 0 <= i < graph.nodes@.len()
                && (#[trigger] graph.nodes@[i]).node.node.resolved_ty != DependencyType::Dev
                ==> entry_in(graph.nodes@[i], r.nodes@)
        },
{
    if !prod {
        return graph;
    }
    let ghost g0 = graph.nodes@;
    let mut rest = graph.nodes;
    let mut out: Vec<DownloadedEntry> = Vec::new();
    let ghost mut i: int = 0;
    while rest.len() > 0
        invariant
            0 <= i <= g0.len(),
            i + rest@.len() == g0.len(),
            forall|x: int, y: int| 0 <= x < y < g0.len()
                ==> crate::graph::downloaded_key(#[trigger] g0[x])
                    != crate::graph::downloaded_key(#[trigger] g0[y]),
            forall|j: int| 0 <= j < rest@.len() ==> rest@[j] == g0[i + j],
            forall|j: int| 0 <= j < out@.len()
                ==> (#[trigger] out@[j]).node.node.resolved_ty != DependencyType::Dev,
            forall|j: int| 0 <= j < out@.len() ==> exists|a: int| 0 <= a < i
                && #[trigger] out@[j] == g0[a],
            forall|j1: int, j2: int| 0 <= j1 < j2 < out@.len()
                ==> crate::graph::downloaded_key(#[trigger] out@[j1])
                    != crate::graph::downloaded_key(#[trigger] out@[j2]),
            forall|a: int| 0 <= a < i
                && (#[trigger] g0[a]).node.node.resolved_ty != DependencyType::Dev
                ==> entry_in(g0[a], out@),
        decreases rest@.len(),
    {
        let ghost rest0 = rest@;
        let ghost out0 = out@;
        let e = rest.remove(0);
        proof {
            assert(forall|j: int| 0 <= j < rest@.len() ==> rest@[j] == rest0[j + 1]);
            assert(e == g0[i]);
        }
        let keep = !matches!(e.node.node.resolved_ty, DependencyType::Dev);
        if keep {
            out.push(e);
            proof {
                assert(out@.len() == out0.len() + 1);
                assert(forall|j: int| 0 <= j < out0.len() ==> out@[j] == out0[j]);
                assert(out@.last() == g0[i]);
                assert forall|j: int| 0 <= j < out@.len() implies exists|a: int| 0 <= a < i + 1
                    && #[trigger] out@[j] == g0[a] by {
                    if j < out0.len() {
                        let a = choose|a: int| 0 <= a < i && out0[j] == g0[a];
                        assert(out@[j] == g0[a]);
                    } else {
                        assert(out@[j] == g0[i]);
                    }
                }
                assert forall|j1: int, j2: int| 0 <= j1 < j2 < out@.len()
                    implies crate::graph::downloaded_key(#[trigger] out@[j1])
                        != crate::graph::downloaded_key(#[trigger] out@[j2]) by {
                    if j2 == out@.len() - 1 {
                        let a = choose|a: int| 0 <= a < i && out0[j1] == g0[a];
                        assert(out@[j1] == g0[a]);
                        assert(out@[j2] == g0[i]);
                        assert(crate::graph::downloaded_key(g0[a])
                            != crate::graph::downloaded_key(g0[i]));
                    }
                }
                assert forall|a: int| 0 <= a < i + 1
                    && (#[trigger] g0[a]).node.node.resolved_ty != DependencyType::Dev
                    implies entry_in(g0[a], out@) by {
                    if a < i {
                        lemma_entry_in_push(g0[a], out0, g0[i]);
                        assert(out@ == out0.push(g0[i]));
                    } else {
                        assert(out@[out@.len() - 1] == g0[a]);
                    }
                }
            }
        } else {
            proof {
                assert(out@ == out0);
                assert(g0[i].node.node.resolved_ty == DependencyType::Dev);
            }
        }
        proof {
            i = i + 1;
        }
    }
    DownloadedGraph { nodes: out }
}

/// Strips the download-time targets off a downloaded graph, leaving the
/// plain pinned graph (what a prior lockfile contributes to the next
/// resolution).
pub fn strip_downloaded(graph: DownloadedGraph) -> (r: DependencyGraph)
    ensures
        r.nodes@.len() == graph.nodes@.len(),
        forall|i: int| 0 <= i < graph.nodes@.len() ==> {
            let e = #[trigger] graph.nodes@[i];
            let o = r.nodes@[i];
            o.name == e.name && o.version == e.version && o.node == e.node.node
        },
{
    let ghost g0 = graph.nodes@;
    let mut rest = graph.nodes;
    let mut out: Vec<crate::graph::GraphEntry> = Vec::new();
    let ghost mut i: int = 0;
    while rest.len() > 0
        invariant
            0 <= i <= g0.len(),
            i + rest@.len() == g0.len(),
            out@.len() == i,
            forall|j: int| 0 <= j < rest@.len() ==> rest@[j] == g0[i + j],
            forall|j: int| 0 <= j < i ==> {
                let e = #[trigger] g0[j];
                let o = out@[j];
                o.name == e.name && o.version == e.version && o.node == e.node.node
            },
        decreases rest@.len(),
    {
        let ghost rest0 = rest@;
        let e = rest.remove(0);
        proof {
            assert(forall|j: int| 0 <= j < rest@.len() ==> rest@[j] == rest0[j + 1]);
        }
        out.push(crate::graph::GraphEntry {
            name: e.name,
            version: e.version,
            node: e.node.node,
        });
        proof {
            i = i + 1;
        }
    }
    DependencyGraph { nodes: out }
}

} // verus!
