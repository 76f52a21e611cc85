//! The resolver: turns a manifest, an optional prior graph and an index
//! snapshot into a pinned dependency graph, applying overrides, peer
//! promotion, target filtering and prior-pin preference.

use vstd::prelude::*;
use crate::graph::{DependencyGraph, DependencyGraphNode, GraphEntry, insert_node, add_edge,
    vid_key};
use crate::index::Index;
use crate::manifest::{Manifest, OverrideKey, has_duplicate_alias};
use crate::names::PackageNames;
use crate::reqs::{VersionReq, spec_matches};
use crate::source::{
    DependencySpecifiers, DependencyType, PackageRefs, PesdeDependencySpecifier,
    PesdePackageSource, ResolveError, clone_deps, deps_view,
};
use crate::target::TargetKind;
use crate::version::{Version, VersionId, spec_render_version, version_lt, lemma_version_lt_trans,
    lemma_version_lt_irrefl};

verus! {

/// Errors from building the dependency graph.
#[derive(Clone, Debug)]
pub enum ResolveGraphError {
    /// Two dependency tables declare the same alias. Carries the alias.
    AliasConflict(String),
    /// The source could not resolve a specifier.
    Source(ResolveError),
    /// An index alias named by a specifier is not declared by the
    /// manifest. Carries the alias.
    IndexNotFound(String),
    /// No published version satisfies the requirement. Carries the
    /// rendered name and requirement.
    NoMatchingVersion(String, String),
    /// A version satisfies the requirement, but none of the satisfying
    /// versions was published for a compatible target. Carries the
    /// rendered name and requirement, the project's target and the target
    /// of one satisfying version.
    IncompatibleTarget(String, String, TargetKind, TargetKind),
    /// The work queue outgrew the budget derived from the index size; a
    /// safeguard bound, not expected on real inputs.
    BudgetExhausted,
}

/// Why no candidate could be picked.
pub enum PickError {
    /// No candidate version satisfies the requirement.
    NoMatching,
    /// Some candidate satisfies the requirement, but none of those has the
    /// wanted target; carries the target of one satisfying candidate.
    Incompatible(TargetKind),
}

/// Whether candidate `i` satisfies the requirement.
pub open spec fn cand_matches(c: Seq<(VersionId, PackageRefs)>, i: int, req: VersionReq) -> bool {
    spec_matches(c[i].0.version, req)
}

/// Whether candidate `i` was published for the wanted target.
pub open spec fn cand_compat(c: Seq<(VersionId, PackageRefs)>, i: int, t: TargetKind) -> bool {
    c[i].0.target == t
}

/// The picked candidate is a highest satisfying one: no satisfying
/// candidate of the wanted target is strictly higher.
pub open spec fn picked_maximal(
    c: Seq<(VersionId, PackageRefs)>,
    req: VersionReq,
    t: TargetKind,
    i: int,
) -> bool {
    forall|j: int| 0 <= j < c.len() && cand_matches(c, j, req) && cand_compat(c, j, t)
        ==> !version_lt(c[i].0.version, (#[trigger] c[j]).0.version)
}

/// Whether a prior pin is admissible: some candidate carries the pinned
/// version id, satisfies the requirement and has the wanted target.
pub open spec fn pin_admissible(
    c: Seq<(VersionId, PackageRefs)>,
    req: VersionReq,
    t: TargetKind,
    p: VersionId,
) -> bool {
    exists|j: int| 0 <= j < c.len() && vid_key((#[trigger] c[j]).0) == vid_key(p)
        && cand_matches(c, j, req) && cand_compat(c, j, t)
}

/// Picks one candidate: a prior pin when it is admissible, otherwise the
/// highest version that satisfies the requirement and has the wanted
/// target. Fails with `NoMatching` exactly when no version satisfies the
/// requirement, and with `Incompatible` exactly when versions satisfy it
/// but none of them has the wanted target.
pub fn pick_candidate(
    candidates: &Vec<(VersionId, PackageRefs)>,
    req: &VersionReq,
    project_target: TargetKind,
    pin: Option<&VersionId>,
) -> (r: Result<usize, PickError>)
    ensures
        r matches Ok(i) ==> {
            &&& i < candidates@.len()
            &&& cand_matches(candidates@, i as int, *req)
            &&& cand_compat(candidates@, i as int, project_target)
            &&& (pin matches Some(p) ==> (pin_admissible(candidates@, *req, project_target, *p)
                ==> vid_key(candidates@[i as int].0) == vid_key(*p)))
            &&& (pin matches Some(p) ==> (!pin_admissible(candidates@, *req, project_target, *p)
                ==> picked_maximal(candidates@, *req, project_target, i as int)))
            &&& (pin is None ==> picked_maximal(candidates@, *req, project_target, i as int))
        },
        r matches Err(e) ==> (e is NoMatching <==> forall|j: int|
            0 <= j < candidates@.len() ==> !cand_matches(candidates@, j, *req)),
        r matches Err(PickError::Incompatible(found)) ==> {
            &&& exists|j: int| 0 <= j < candidates@.len() && cand_matches(candidates@, j, *req)
                && candidates@[j].0.target == found
            &&& forall|j: int| 0 <= j < candidates@.len() && cand_matches(candidates@, j, *req)
                ==> !cand_compat(candidates@, j, project_target)
        },
        r is Err ==> forall|j: int| 0 <= j < candidates@.len()
            ==> !(cand_matches(candidates@, j, *req) && cand_compat(candidates@, j, project_target)),
{
    // Prefer an admissible prior pin.
    if let Some(p) = pin {
        let mut j: usize = 0;
        while j < candidates.len()
            invariant
                pin == Some(p),
                j <= candidates@.len(),
                forall|k: int| 0 <= k < j ==> !(vid_key((#[trigger] candidates@[k]).0)
                    == vid_key(*p) && cand_matches(candidates@, k, *req)
                    && cand_compat(candidates@, k, project_target)),
            decreases candidates@.len() - j,
        {
            let c = &candidates[j];
            if c.0.eq_id(p) && req.matches(&c.0.version) && c.0.target == project_target {
                proof {
                    assert(cand_matches(candidates@, j as int, *req));
                    assert(cand_compat(candidates@, j as int, project_target));
                    assert(vid_key(candidates@[j as int].0) == vid_key(*p));
                    assert(pin_admissible(candidates@, *req, project_target, *p));
                    assert(forall|k: int| 0 <= k < candidates@.len()
                        && cand_matches(candidates@, k, *req)
                        && cand_compat(candidates@, k, project_target)
                        ==> !version_lt(candidates@[j as int].0.version,
                            (#[trigger] candidates@[k]).0.version)
                        || !(!pin_admissible(candidates@, *req, project_target, *p)));
                }
                return Ok(j);
            }
            j += 1;
        }
        proof {
            assert(!pin_admissible(candidates@, *req, project_target, *p));
        }
    }
    let mut best: Option<usize> = None;
    let mut any_match: Option<usize> = None;
    let mut j: usize = 0;
    while j < candidates.len()
        invariant
            j <= candidates@.len(),
            best matches Some(b) ==> b < j && cand_matches(candidates@, b as int, *req)
                && cand_compat(candidates@, b as int, project_target)
                && forall|k: int| 0 <= k < j && cand_matches(candidates@, k, *req)
                    && cand_compat(candidates@, k, project_target)
                    ==> !version_lt(candidates@[b as int].0.version,
                        (#[trigger] candidates@[k]).0.version),
            best is None ==> forall|k: int| 0 <= k < j
                ==> !(cand_matches(candidates@, k, *req)
                    && cand_compat(candidates@, k, project_target)),
            any_match matches Some(m) ==> m < j && cand_matches(candidates@, m as int, *req),
            any_match is None ==> forall|k: int| 0 <= k < j
                ==> !cand_matches(candidates@, k, *req),
        decreases candidates@.len() - j,
    {
        let c = &candidates[j];
        if req.matches(&c.0.version) {
            if any_match.is_none() {
                any_match = Some(j);
            }
            if c.0.target == project_target {
                proof {
                    lemma_version_lt_irrefl(candidates@[j as int].0.version);
                }
                match best {
                    None => {
                        best = Some(j);
                    },
                    Some(b) => {
                        if candidates[b].0.version.lt(&c.0.version) {
                            proof {
                                let bv = candidates@[b as int].0.version;
                                let cv = candidates@[j as int].0.version;
                                assert forall|k: int| 0 <= k < j
                                    && cand_matches(candidates@, k, *req)
                                    && cand_compat(candidates@, k, project_target)
                                    implies !version_lt(cv,
                                        (#[trigger] candidates@[k]).0.version) by {
                                    if version_lt(cv, candidates@[k].0.version) {
                                        lemma_version_lt_trans(bv, cv,
                                            candidates@[k].0.version);
                                    }
                                }
                            }
                            best = Some(j);
                        }
                    },
                }
            }
        }
        j += 1;
    }
    match best {
        Some(b) => Ok(b),
        None => {
            match any_match {
                Some(m) => Err(PickError::Incompatible(candidates[m].0.target)),
                None => Err(PickError::NoMatching),
            }
        },
    }
}

/// Scans a prior graph for a node of the given name whose pinned version
/// still satisfies the requirement under the wanted target; the pin is
/// then preferred over newer versions. (The caller re-checks
/// admissibility, so no contract is needed here.)
fn find_pin(
    prior: Option<&DependencyGraph>,
    name: &PackageNames,
    req: &VersionReq,
    project_target: TargetKind,
) -> (r: Option<VersionId>)
{
    let g = match prior {
        Some(g) => g,
        None => { return None; },
    };
    let key = name.render();
    let mut i: usize = 0;
    while i < g.nodes.len()
        invariant
            i <= g.nodes@.len(),
        decreases g.nodes@.len() - i,
    {
        let e = &g.nodes[i];
        let en = e.name.render();
        if crate::strutil::str_eq(en.as_str(), key.as_str()) && e.version.target == project_target
            && req.matches(&e.version.version) {
            return Some(e.version.clone_id());
        }
        i += 1;
    }
    None
}

/// One queued unit of resolution work.
struct WorkItem {
    /// The alias the dependency is required under.
    alias: String,
    /// The declared specifier (before overrides).
    spec: DependencySpecifiers,
    /// The declared type.
    ty: DependencyType,
    /// The rendered package names from a direct dependency down to this
    /// one; override keys are matched against it.
    path: Vec<String>,
    /// The node that depends on this one, absent for direct dependencies.
    parent: Option<(PackageNames, VersionId)>,
    /// Whether this is a direct dependency of the project.
    top: bool,
}

/// A `direct` record can only hold what the manifest declares at the root.
pub open spec fn direct_from_root(
    m: Manifest,
    d: Option<(String, DependencySpecifiers, DependencyType)>,
) -> bool {
    match d {
        None => true,
        Some(t) => exists|j: int| 0 <= j < m.spec_all_deps().len()
            && #[trigger] m.spec_all_deps()[j] == (t.0@, t.1.view_v(), t.2),
    }
}

/// An upper bound on the number of work items one run can ever enqueue:
/// the direct dependencies plus one batch of declared dependencies for
/// every published index entry (each entry inserts at most once).
fn resolution_budget(seed: usize, index: &Index) -> (r: usize)
{
    let mut fuel = seed;
    let mut i: usize = 0;
    while i < index.packages.len()
        invariant
            i <= index.packages@.len(),
        decreases index.packages@.len() - i,
    {
        let file = &index.packages[i].1;
        let mut j: usize = 0;
        while j < file.entries.len()
            invariant
                j <= file.entries@.len(),
            decreases file.entries@.len() - j,
        {
            let d = file.entries[j].1.dependencies.len();
            fuel = if d > usize::MAX - fuel { usize::MAX } else { fuel + d };
            j += 1;
        }
        i += 1;
    }
    fuel
}

/// Whether the root's standard dependency table declares a dependency on
/// the package named `nm` (rendered), under any alias. A transitive peer
/// on such a package is promoted to a standard dependency.
pub open spec fn root_declares_standard(m: Manifest, nm: Seq<char>) -> bool {
    exists|j: int| 0 <= j < m.dependencies@.len()
        && (#[trigger] m.dependencies@[j]).1.spec_name() == nm
}

/// Checks whether a table declares a dependency on the named package.
fn declares_in(deps: &Vec<(String, DependencySpecifiers)>, name: &PackageNames) -> (r: bool)
    ensures
        r == exists|j: int| 0 <= j < deps@.len()
            && (#[trigger] deps@[j]).1.spec_name() == name.spec_render(),
{
    let key = name.render();
    let mut i: usize = 0;
    while i < deps.len()
        invariant
            key@ == name.spec_render(),
            i <= deps@.len(),
            forall|j: int| 0 <= j < i
                ==> (#[trigger] deps@[j]).1.spec_name() != name.spec_render(),
        decreases deps@.len() - i,
    {
        let n = match &deps[i].1 {
            DependencySpecifiers::Pesde(s) => s.name.render(),
        };
        if crate::strutil::str_eq(n.as_str(), key.as_str()) {
            return true;
        }
        i += 1;
    }
    false
}

// ---------------------------------------------------------------------------
// Root overrides and what resolution owes each declared dependency
// ---------------------------------------------------------------------------

/// Whether override entry `o` targets the root path of a dependency
/// declared with `declared`: its key is the one-name path of that package.
pub open spec fn root_override_matches(m: Manifest, declared: DependencySpecifiers, o: int) -> bool {
    m.overrides@[o].0.view_v() == seq![declared.spec_name()]
}

/// Whether any override targets that root path.
pub open spec fn has_root_override(m: Manifest, declared: DependencySpecifiers) -> bool {
    exists|o: int| 0 <= o < m.overrides@.len() && root_override_matches(m, declared, o)
}

/// The first override targeting that root path.
pub open spec fn first_root_override(m: Manifest, declared: DependencySpecifiers) -> int {
    choose|o: int| 0 <= o < m.overrides@.len() && root_override_matches(m, declared, o)
        && (forall|o2: int| 0 <= o2 < o ==> !root_override_matches(m, declared, o2))
}

/// The specifier a root declaration resolves with: the first matching
/// override's, or the declared one.
pub open spec fn spec_root_effective(m: Manifest, declared: DependencySpecifiers)
    -> DependencySpecifiers {
    if has_root_override(m, declared) {
        m.overrides@[first_root_override(m, declared)].1
    } else {
        declared
    }
}

/// A matching override implies a first matching override.
proof fn lemma_minimal_override(m: Manifest, declared: DependencySpecifiers, o: int)
    requires
        0 <= o < m.overrides@.len(),
        root_override_matches(m, declared, o),
    ensures
        exists|f: int| 0 <= f <= o && #[trigger] root_override_matches(m, declared, f)
            && (forall|o2: int| 0 <= o2 < f ==> !root_override_matches(m, declared, o2)),
    decreases o,
{
    if forall|o2: int| 0 <= o2 < o ==> !root_override_matches(m, declared, o2) {
    } else {
        let o2 = choose|o2: int| 0 <= o2 < o && root_override_matches(m, declared, o2);
        lemma_minimal_override(m, declared, o2);
    }
}

/// An override key's view is the view of its path segments.
proof fn lemma_key_view(k: OverrideKey)
    ensures
        k.view_v() == crate::version::idents_view(k.path@),
{
    assert(k.view_v() =~~= crate::version::idents_view(k.path@));
}

/// A specifier's name rendering is a function of its view.
proof fn lemma_spec_name_congruent(a: DependencySpecifiers, b: DependencySpecifiers)
    requires
        a.view_v() == b.view_v(),
    ensures
        a.spec_name() == b.spec_name(),
        a.spec_req().view_v() == b.spec_req().view_v(),
{
    match (a, b) {
        (DependencySpecifiers::Pesde(pa), DependencySpecifiers::Pesde(pb)) => {
            assert(pa.name.view_v() == pb.name.view_v());
        },
    }
}

/// A version's rendering is a function of its view.
proof fn lemma_render_version_congruent(a: Version, b: Version)
    requires
        a.view_v() == b.view_v(),
    ensures
        spec_render_version(a) == spec_render_version(b),
{
    assert(a.pre_view() == b.pre_view());
    assert(crate::version::idents_view(a.build@) == crate::version::idents_view(b.build@));
    assert(a.pre@.len() == crate::version::idents_view(a.pre@).len());
    assert(b.pre@.len() == crate::version::idents_view(b.pre@).len());
    assert(a.build@.len() == crate::version::idents_view(a.build@).len());
    assert(b.build@.len() == crate::version::idents_view(b.build@).len());
}

/// The effective specifier is a function of the declaration's view.
#[verifier::rlimit(60)]
proof fn lemma_effective_congruent(m: Manifest, a: DependencySpecifiers, b: DependencySpecifiers)
    requires
        a.view_v() == b.view_v(),
    ensures
        spec_root_effective(m, a).view_v() == spec_root_effective(m, b).view_v(),
{
    lemma_spec_name_congruent(a, b);
    assert(forall|o: int| 0 <= o < m.overrides@.len()
        ==> root_override_matches(m, a, o) == #[trigger] root_override_matches(m, b, o));
    if has_root_override(m, a) {
        let oa = choose|o: int| 0 <= o < m.overrides@.len() && root_override_matches(m, a, o);
        assert(root_override_matches(m, b, oa));
        assert(has_root_override(m, b));
        let fa = first_root_override(m, a);
        let fb = first_root_override(m, b);
        lemma_minimal_override(m, a, oa);
        lemma_minimal_override(m, b, oa);
        assert(0 <= fa < m.overrides@.len() && root_override_matches(m, a, fa)
            && (forall|o2: int| 0 <= o2 < fa ==> !root_override_matches(m, a, o2)));
        assert(0 <= fb < m.overrides@.len() && root_override_matches(m, b, fb)
            && (forall|o2: int| 0 <= o2 < fb ==> !root_override_matches(m, b, o2)));
        if fa < fb {
            assert(!root_override_matches(m, b, fa));
            assert(false);
        } else if fb < fa {
            assert(!root_override_matches(m, a, fb));
            assert(false);
        }
    } else {
        assert(!has_root_override(m, b)) by {
            if has_root_override(m, b) {
                let ob = choose|o: int| 0 <= o < m.overrides@.len()
                    && root_override_matches(m, b, o);
                assert(root_override_matches(m, a, ob));
            }
        }
    }
}

/// What one graph entry owes a root declaration it answers: its name is
/// the effective specifier's, its version id carries the project's target
/// and the rendering of a version that satisfies the effective
/// requirement, and it is marked direct.
pub open spec fn node_answers(m: Manifest, e: GraphEntry, declared: DependencySpecifiers) -> bool {
    &&& e.name.spec_render() == spec_root_effective(m, declared).spec_name()
    &&& e.version.target == m.target.kind
    &&& exists|vv: Version| spec_matches(vv, spec_root_effective(m, declared).spec_req())
        && spec_render_version(vv) == spec_render_version(e.version.version)
    &&& e.node.direct is Some
}

/// A root declaration is resolved in the graph: some node answers it.
pub open spec fn root_dep_done(m: Manifest, g: DependencyGraph, declared: DependencySpecifiers)
    -> bool {
    exists|i: int| 0 <= i < g.nodes@.len() && node_answers(m, #[trigger] g.nodes@[i], declared)
}

/// `root_dep_done` is a function of the declaration's view.
proof fn lemma_done_congruent(
    m: Manifest,
    g: DependencyGraph,
    a: DependencySpecifiers,
    b: DependencySpecifiers,
)
    requires
        a.view_v() == b.view_v(),
        root_dep_done(m, g, a),
    ensures
        root_dep_done(m, g, b),
{
    lemma_effective_congruent(m, a, b);
    lemma_spec_name_congruent(spec_root_effective(m, a), spec_root_effective(m, b));
    let i = choose|i: int| 0 <= i < g.nodes@.len() && node_answers(m, #[trigger] g.nodes@[i], a);
    let vv = choose|vv: Version| spec_matches(vv, spec_root_effective(m, a).spec_req())
        && spec_render_version(vv) == spec_render_version(g.nodes@[i].version.version);
    crate::reqs::lemma_matches_congruent(vv, spec_root_effective(m, a).spec_req(),
        spec_root_effective(m, b).spec_req());
    assert(node_answers(m, g.nodes@[i], b));
}

/// One graph keeps another's nodes: same length or longer, and every old
/// position keeps its name, version and resolved type, and keeps a direct
/// mark it had.
pub open spec fn preserves_nodes(g0: DependencyGraph, g1: DependencyGraph) -> bool {
    &&& g0.nodes@.len() <= g1.nodes@.len()
    &&& forall|i: int| 0 <= i < g0.nodes@.len() ==> {
        let a = #[trigger] g0.nodes@[i];
        let b = g1.nodes@[i];
        &&& b.name == a.name
        &&& b.version == a.version
        &&& b.node.resolved_ty == a.node.resolved_ty
        &&& (a.node.direct is Some ==> b.node.direct == a.node.direct)
    }
}

/// An answered declaration stays answered as the graph grows.
proof fn lemma_done_mono(
    m: Manifest,
    g0: DependencyGraph,
    g1: DependencyGraph,
    declared: DependencySpecifiers,
)
    requires
        root_dep_done(m, g0, declared),
        preserves_nodes(g0, g1),
    ensures
        root_dep_done(m, g1, declared),
{
    let i = choose|i: int| 0 <= i < g0.nodes@.len()
        && node_answers(m, #[trigger] g0.nodes@[i], declared);
    assert(node_answers(m, g1.nodes@[i], declared));
}

/// A present key stays present as the graph grows.
proof fn lemma_key_mono(
    g0: DependencyGraph,
    g1: DependencyGraph,
    key: (crate::names::NameView, (Seq<char>, TargetKind)),
)
    requires
        g0.spec_has_key(key),
        preserves_nodes(g0, g1),
    ensures
        g1.spec_has_key(key),
{
    let i = choose|i: int| 0 <= i < g0.nodes@.len()
        && crate::graph::entry_key(#[trigger] g0.nodes@[i]) == key;
    assert(crate::graph::entry_key(g1.nodes@[i]) == key);
}

/// No node of a package the root's standard table declares is recorded as
/// a peer: such peers are promoted.
pub open spec fn no_unpromoted_peer(m: Manifest, g: DependencyGraph) -> bool {
    forall|i: int| 0 <= i < g.nodes@.len()
        ==> (root_declares_standard(m, (#[trigger] g.nodes@[i]).name.spec_render())
            ==> g.nodes@[i].node.resolved_ty != DependencyType::Peer)
}

/// Every recorded dependency edge points at a node of the graph.
pub open spec fn edges_closed(g: DependencyGraph) -> bool {
    forall|i: int, k: int| 0 <= i < g.nodes@.len()
        && 0 <= k < g.nodes@[i].node.dependencies@.len()
        ==> g.spec_has_key(((#[trigger] g.nodes@[i].node.dependencies@[k]).0.view_v(),
            vid_key(g.nodes@[i].node.dependencies@[k].1.0)))
}

/// Applies the first override whose key path matches the item's path, or
/// keeps the declared specifier. For a root item (whose path is the
/// declared package's one-name path) the result is the effective root
/// specifier.
fn effective_specifier(
    m: &Manifest,
    item_path: &Vec<String>,
    declared: &DependencySpecifiers,
) -> (r: DependencySpecifiers)
    ensures
        crate::version::idents_view(item_path@) == seq![declared.spec_name()]
            ==> r.view_v() == spec_root_effective(*m, *declared).view_v(),
{
    let mut o: usize = 0;
    while o < m.overrides.len()
        invariant
            o <= m.overrides@.len(),
            forall|o2: int| 0 <= o2 < o ==> (#[trigger] m.overrides@[o2]).0.view_v()
                != crate::version::idents_view(item_path@),
        decreases m.overrides@.len() - o,
    {
        if paths_equal(&m.overrides[o].0.path, item_path) {
            let r = m.overrides[o].1.clone_spec();
            proof {
                lemma_key_view(m.overrides@[o as int].0);
                if crate::version::idents_view(item_path@) == seq![declared.spec_name()] {
                    assert(root_override_matches(*m, *declared, o as int));
                    assert forall|o2: int| 0 <= o2 < o
                        implies !root_override_matches(*m, *declared, o2) by {
                        lemma_key_view(m.overrides@[o2].0);
                    }
                    let f = first_root_override(*m, *declared);
                    assert(0 <= f < m.overrides@.len()
                        && root_override_matches(*m, *declared, f)
                        && (forall|o2: int| 0 <= o2 < f
                            ==> !root_override_matches(*m, *declared, o2)));
                    if f < o as int {
                        assert(!root_override_matches(*m, *declared, f));
                        assert(false);
                    } else if (o as int) < f {
                        assert(!root_override_matches(*m, *declared, o as int));
                        assert(false);
                    }
                }
            }
            return r;
        }
        o += 1;
    }
    let r = declared.clone_spec();
    proof {
        if crate::version::idents_view(item_path@) == seq![declared.spec_name()] {
            assert(!has_root_override(*m, *declared)) by {
                if has_root_override(*m, *declared) {
                    let o2 = choose|o2: int| 0 <= o2 < m.overrides@.len()
                        && root_override_matches(*m, *declared, o2);
                    lemma_key_view(m.overrides@[o2].0);
                }
            }
        }
    }
    r
}

/// Builds the pinned dependency graph for `manifest` against the decoded
/// `index` (whose repository URL is `index_url`), preferring pins from
/// `prior` where they still satisfy the requirements. On success, every
/// declared root dependency is answered by a direct-marked node whose name
/// is its effective (possibly overridden) specifier's, pinned to the
/// project's target and to the rendering of a version that satisfies the
/// effective requirement; peers of packages the root's standard table
/// declares are promoted; and every recorded edge points at a graph node.
#[verifier::rlimit(100)]
pub fn dependency_graph(
    manifest: &Manifest,
    prior: Option<&DependencyGraph>,
    index: &Index,
    index_url: &String,
) -> (r: Result<DependencyGraph, ResolveGraphError>)
    requires
        index.wf(),
    ensures
        r matches Ok(g) ==> {
            &&& g.wf()
            &&& (manifest.spec_all_deps().len() == 0 ==> g.nodes@.len() == 0)
            &&& forall|i: int| 0 <= i < g.nodes@.len()
                ==> direct_from_root(*manifest, (#[trigger] g.nodes@[i]).node.direct)
            &&& forall|j: int| 0 <= j < manifest.dependencies@.len()
                ==> root_dep_done(*manifest, g, (#[trigger] manifest.dependencies@[j]).1)
            &&& forall|j: int| 0 <= j < manifest.peer_dependencies@.len()
                ==> root_dep_done(*manifest, g, (#[trigger] manifest.peer_dependencies@[j]).1)
            &&& forall|j: int| 0 <= j < manifest.dev_dependencies@.len()
                ==> root_dep_done(*manifest, g, (#[trigger] manifest.dev_dependencies@[j]).1)
            &&& no_unpromoted_peer(*manifest, g)
            &&& edges_closed(g)
        },
        manifest.spec_all_deps().len() == 0 ==> r is Ok,
        r matches Err(ResolveGraphError::AliasConflict(a))
            ==> has_duplicate_alias(manifest.spec_all_deps()),
        r matches Err(ResolveGraphError::IncompatibleTarget(n, q, expected, found))
            ==> expected == manifest.target.kind && found != manifest.target.kind,
{
    let all = match manifest.all_dependencies() {
        Ok(all) => all,
        Err(crate::manifest::AllDependenciesError::AliasConflict(a)) => {
            return Err(ResolveGraphError::AliasConflict(a));
        },
    };
    let mut graph = DependencyGraph::new();
    let mut queue: Vec<WorkItem> = Vec::new();
    // Seed the queue with the project's direct dependencies.
    let mut s: usize = 0;
    while s < all.len()
        invariant
            deps_view(all@) == manifest.spec_all_deps(),
            s <= all@.len(),
            queue@.len() == s,
            forall|k: int| 0 <= k < queue@.len() ==> #[trigger] queue_item_ok(*manifest, queue@[k]),
            forall|j: int| 0 <= j < s ==> root_pending(queue@, (#[trigger] all@[j]).1.0),
        decreases all@.len() - s,
    {
        let ghost q0 = queue@;
        let (alias, (spec, ty)) = &all[s];
        let name = match spec {
            DependencySpecifiers::Pesde(ps) => ps.name.render(),
        };
        let mut path: Vec<String> = Vec::new();
        path.push(name);
        let item = WorkItem {
            alias: alias.clone(),
            spec: spec.clone_spec(),
            ty: *ty,
            path,
            parent: None,
            top: true,
        };
        proof {
            assert(deps_view(all@)[s as int] == (all@[s as int].0@,
                all@[s as int].1.0.view_v(), all@[s as int].1.1));
            assert(manifest.spec_all_deps()[s as int] == (item.alias@, item.spec.view_v(), item.ty));
            lemma_spec_name_congruent(item.spec, all@[s as int].1.0);
            assert(crate::version::idents_view(item.path@)
                =~~= seq![item.spec.spec_name()]);
        }
        queue.push(item);
        proof {
            assert forall|j: int| 0 <= j < s + 1
                implies root_pending(queue@, (#[trigger] all@[j]).1.0) by {
                if j < s {
                    let k = choose|k: int| 0 <= k < q0.len() && (#[trigger] q0[k]).top
                        && q0[k].spec.view_v() == all@[j].1.0.view_v();
                    assert(queue@[k] == q0[k]);
                } else {
                    assert(queue@[s as int].top
                        && queue@[s as int].spec.view_v() == all@[j].1.0.view_v());
                }
            }
        }
        s += 1;
    }
    let mut fuel = resolution_budget(queue.len(), index);
    while queue.len() > 0
        invariant
            index.wf(),
            graph.wf(),
            deps_view(all@) == manifest.spec_all_deps(),
            manifest.spec_all_deps().len() == 0
                ==> graph.nodes@.len() == 0 && queue@.len() == 0,
            forall|i: int| 0 <= i < graph.nodes@.len()
                ==> direct_from_root(*manifest, (#[trigger] graph.nodes@[i]).node.direct),
            forall|k: int| 0 <= k < queue@.len() ==> #[trigger] queue_item_ok(*manifest, queue@[k]),
            forall|j: int| 0 <= j < all@.len()
                ==> root_dep_done(*manifest, graph, (#[trigger] all@[j]).1.0)
                    || root_pending(queue@, all@[j].1.0),
            no_unpromoted_peer(*manifest, graph),
            edges_closed(graph),
        decreases fuel,
    {
        if fuel == 0 {
            return Err(ResolveGraphError::BudgetExhausted);
        }
        fuel -= 1;
        let ghost q0 = queue@;
        let item = queue.remove(0);
        let ghost item_g = item;
        proof {
            assert(queue_item_ok(*manifest, item_g));
            assert(forall|k: int| 0 <= k < queue@.len() ==> queue@[k] == q0[k + 1]);
        }
        // Apply the first override whose key path matches this item's path.
        let spec_used = effective_specifier(manifest, &item.path, &item.spec);
        let ghost spec_used_g = spec_used;
        let DependencySpecifiers::Pesde(ps) = spec_used;
        // Find the index the specifier asks for.
        let url: String = match &ps.index {
            None => index_url.clone(),
            Some(alias) => {
                match lookup_index(&manifest.indices, alias) {
                    Some(u) => u,
                    None => { return Err(ResolveGraphError::IndexNotFound(alias.clone())); },
                }
            },
        };
        let source = PesdePackageSource::new(url);
        let (resolved_name, candidates) = match source.resolve(&ps, index) {
            Ok(rr) => rr,
            Err(e) => { return Err(ResolveGraphError::Source(e)); },
        };
        let pin = find_pin(prior, &resolved_name, &ps.version, manifest.target.kind);
        let picked = match pick_candidate(&candidates, &ps.version, manifest.target.kind,
            pin.as_ref()) {
            Ok(i) => i,
            Err(PickError::NoMatching) => {
                let rendered = ps.version.render();
                return Err(ResolveGraphError::NoMatchingVersion(resolved_name.render(), rendered));
            },
            Err(PickError::Incompatible(found)) => {
                let rendered = ps.version.render();
                proof {
                    assert(found != manifest.target.kind);
                }
                return Err(ResolveGraphError::IncompatibleTarget(resolved_name.render(), rendered,
                    manifest.target.kind, found));
            },
        };
        let ghost vv = candidates@[picked as int].0.version;
        let vid = candidates[picked].0.clone_id();
        let pkg_ref = candidates[picked].1.clone_ref();
        let child_deps = clone_deps(candidates[picked].1.deps());
        // Peer promotion: a peer of a package the root's standard table
        // declares resolves as a standard dependency.
        let root_declares = declares_in(&manifest.dependencies, &resolved_name);
        let resolved_ty = if matches!(item.ty, DependencyType::Peer) && root_declares {
            DependencyType::Standard
        } else {
            item.ty
        };
        let direct = if item.top {
            Some((item.alias.clone(), item.spec.clone_spec(), item.ty))
        } else {
            None
        };
        proof {
            if item_g.top {
                assert(direct_from_root(*manifest, direct));
            }
        }
        let node = DependencyGraphNode {
            direct,
            dependencies: Vec::new(),
            resolved_ty,
            pkg_ref,
        };
        let ghost node_g = node;
        let fresh = graph.find(&resolved_name, &vid).is_none();
        let name_for_later = resolved_name.clone_name();
        let vid_for_later = vid.clone_id();
        let ghost rn = resolved_name;
        let ghost vid_g = vid;
        let ghost key = (rn.view_v(), vid_key(vid_g));
        let ghost g_before = graph;
        proof {
            assert(spec_used_g == DependencySpecifiers::Pesde(ps));
            if item_g.top {
                assert(crate::version::idents_view(item_g.path@)
                    == seq![item_g.spec.spec_name()]);
            }
            assert(vid_g.view_v() == candidates@[picked as int].0.view_v());
            assert(vid_g.view_v().0 == vv.view_v());
            assert(vid_g.target == candidates@[picked as int].0.target);
        }
        insert_node(&mut graph, resolved_name, vid, node, item.top);
        proof {
            // The insertion keeps every old node's identity, and the key is
            // now present.
            if !g_before.spec_has_key(key) {
                assert(preserves_nodes(g_before, graph));
            } else {
                let i = g_before.spec_index_of(key);
                assert forall|a: int| 0 <= a < g_before.nodes@.len() implies {
                    let x = #[trigger] g_before.nodes@[a];
                    let y = graph.nodes@[a];
                    &&& y.name == x.name
                    &&& y.version == x.version
                    &&& y.node.resolved_ty == x.node.resolved_ty
                    &&& (x.node.direct is Some ==> y.node.direct == x.node.direct)
                } by {
                    if a != i {
                        assert(graph.nodes@[a] == g_before.nodes@[a]);
                    }
                }
                assert(preserves_nodes(g_before, graph));
            }
            // When this item is a direct dependency, the inserted (or
            // already present) node answers its declaration.
            if item_g.top {
                let w: int = if !g_before.spec_has_key(key) {
                    g_before.nodes@.len() as int
                } else {
                    g_before.spec_index_of(key)
                };
                lemma_answers_at(w, *manifest, g_before, graph, item_g, spec_used_g, ps, rn,
                    vid_g, vv, node_g, key);
                assert(root_dep_done(*manifest, graph, item_g.spec));
            }
            // Direct marks still come from the root.
            assert forall|i: int| 0 <= i < graph.nodes@.len()
                implies direct_from_root(*manifest, (#[trigger] graph.nodes@[i]).node.direct) by {
                if i < g_before.nodes@.len() {
                    if graph.nodes@[i] != g_before.nodes@[i] {
                        assert(direct_from_root(*manifest, graph.nodes@[i].node.direct));
                    }
                } else {
                    assert(direct_from_root(*manifest, graph.nodes@[i].node.direct));
                }
            }
            // Declared-or-pending is maintained.
            assert forall|j: int| 0 <= j < all@.len()
                implies root_dep_done(*manifest, graph, (#[trigger] all@[j]).1.0)
                    || root_pending(queue@, all@[j].1.0) by {
                let d = all@[j].1.0;
                if root_dep_done(*manifest, g_before, d) {
                    lemma_done_mono(*manifest, g_before, graph, d);
                } else if root_pending(q0, d) {
                    let k = choose|k: int| 0 <= k < q0.len() && (#[trigger] q0[k]).top
                        && q0[k].spec.view_v() == d.view_v();
                    if k == 0 {
                        lemma_done_congruent(*manifest, graph, item_g.spec, d);
                    } else {
                        assert(queue@[k - 1] == q0[k]);
                        assert(root_pending(queue@, d));
                    }
                }
            }
            // No unpromoted peer.
            assert forall|i: int| 0 <= i < graph.nodes@.len()
                implies (root_declares_standard(*manifest,
                    (#[trigger] graph.nodes@[i]).name.spec_render())
                    ==> graph.nodes@[i].node.resolved_ty != DependencyType::Peer) by {
                if i < g_before.nodes@.len() {
                    assert(graph.nodes@[i].name == g_before.nodes@[i].name);
                    assert(graph.nodes@[i].node.resolved_ty
                        == g_before.nodes@[i].node.resolved_ty);
                } else {
                    assert(graph.nodes@[i].name == rn);
                    assert(graph.nodes@[i].node.resolved_ty == node_g.resolved_ty);
                }
            }
            // Edges stay closed: old nodes keep their edges, the new node
            // has none.
            assert forall|i: int, k: int| 0 <= i < graph.nodes@.len()
                && 0 <= k < graph.nodes@[i].node.dependencies@.len()
                implies graph.spec_has_key(
                    ((#[trigger] graph.nodes@[i].node.dependencies@[k]).0.view_v(),
                    vid_key(graph.nodes@[i].node.dependencies@[k].1.0))) by {
                if i < g_before.nodes@.len() {
                    assert(graph.nodes@[i].node.dependencies
                        == g_before.nodes@[i].node.dependencies);
                    assert(g_before.spec_has_key(
                        ((g_before.nodes@[i].node.dependencies@[k]).0.view_v(),
                        vid_key(g_before.nodes@[i].node.dependencies@[k].1.0))));
                    lemma_key_mono(g_before, graph,
                        ((graph.nodes@[i].node.dependencies@[k]).0.view_v(),
                        vid_key(graph.nodes@[i].node.dependencies@[k].1.0)));
                } else {
                    assert(graph.nodes@[i].node.dependencies@.len() == 0);
                }
            }
            assert(graph.spec_has_key(key));
        }
        if let Some((pn, pv)) = item.parent {
            let ghost g_mid = graph;
            let cn = name_for_later.clone_name();
            let cv = vid_for_later.clone_id();
            let ghost cng = cn;
            let ghost cvg = cv;
            add_edge(&mut graph, &pn, &pv, cn, cv, item.alias);
            proof {
                let pkey = (pn.view_v(), vid_key(pv));
                assert(cng.view_v() == rn.view_v());
                assert(cvg.view_v() == vid_g.view_v());
                if g_mid.spec_has_key(pkey) {
                    let pi = g_mid.spec_index_of(pkey);
                    assert forall|a: int| 0 <= a < g_mid.nodes@.len() implies
                        edge_step_ok(#[trigger] g_mid.nodes@[a], graph.nodes@[a], cng, cvg) by {
                        if a != pi {
                            assert(graph.nodes@[a] == g_mid.nodes@[a]);
                        } else {
                            assert(graph.nodes@[a].node.dependencies@.len()
                                == g_mid.nodes@[a].node.dependencies@.len() + 1);
                        }
                    }
                } else {
                    assert(graph == g_mid);
                    assert forall|a: int| 0 <= a < g_mid.nodes@.len() implies
                        edge_step_ok(#[trigger] g_mid.nodes@[a], graph.nodes@[a], cng, cvg) by {
                        assert(graph.nodes@[a] == g_mid.nodes@[a]);
                    }
                }
                lemma_after_edge(*manifest, g_mid, graph, rn, vid_g, cng, cvg, key);
                assert forall|j: int| 0 <= j < all@.len()
                    implies root_dep_done(*manifest, graph, (#[trigger] all@[j]).1.0)
                        || root_pending(queue@, all@[j].1.0) by {
                    let d = all@[j].1.0;
                    if root_dep_done(*manifest, g_mid, d) {
                        lemma_done_mono(*manifest, g_mid, graph, d);
                    }
                }
                assert forall|i: int| 0 <= i < graph.nodes@.len()
                    implies direct_from_root(*manifest,
                        (#[trigger] graph.nodes@[i]).node.direct) by {
                    assert(graph.nodes@[i].node.direct == g_mid.nodes@[i].node.direct);
                }
            }
        }
        // Enqueue the resolved version's own dependencies when the node is
        // new; an already known node was expanded when it first appeared.
        let ghost g_done = graph;
        if fresh {
            let mut d: usize = 0;
            while d < child_deps.len()
                invariant
                    d <= child_deps@.len(),
                    graph == g_done,
                    forall|k: int| 0 <= k < queue@.len()
                        ==> #[trigger] queue_item_ok(*manifest, queue@[k]),
                    forall|j: int| 0 <= j < all@.len()
                        ==> root_dep_done(*manifest, graph, (#[trigger] all@[j]).1.0)
                            || root_pending(queue@, all@[j].1.0),
                decreases child_deps@.len() - d,
            {
                let ghost qd = queue@;
                let (dep_alias, (dep_spec, dep_ty)) = &child_deps[d];
                let dep_name = match dep_spec {
                    DependencySpecifiers::Pesde(s2) => s2.name.render(),
                };
                let mut path = crate::version::clone_idents(&item.path);
                path.push(dep_name);
                let child = WorkItem {
                    alias: dep_alias.clone(),
                    spec: dep_spec.clone_spec(),
                    ty: *dep_ty,
                    path,
                    parent: Some((name_for_later.clone_name(), vid_for_later.clone_id())),
                    top: false,
                };
                queue.push(child);
                proof {
                    assert forall|j: int| 0 <= j < all@.len()
                        implies root_dep_done(*manifest, graph, (#[trigger] all@[j]).1.0)
                            || root_pending(queue@, all@[j].1.0) by {
                        let dd = all@[j].1.0;
                        if !root_dep_done(*manifest, graph, dd) {
                            let k = choose|k: int| 0 <= k < qd.len() && (#[trigger] qd[k]).top
                                && qd[k].spec.view_v() == dd.view_v();
                            assert(queue@[k] == qd[k]);
                        }
                    }
                }
                d += 1;
            }
        }
    }
    proof {
        // An empty queue leaves no pending declaration: everything is done.
        crate::manifest::lemma_all_deps_shape(*manifest);
        assert forall|j: int| 0 <= j < manifest.dependencies@.len()
            implies root_dep_done(*manifest, graph,
                (#[trigger] manifest.dependencies@[j]).1) by {
            let g: int = j;
            lemma_table_done(*manifest, graph, all@, g, manifest.dependencies@[j].1);
        }
        assert forall|j: int| 0 <= j < manifest.peer_dependencies@.len()
            implies root_dep_done(*manifest, graph,
                (#[trigger] manifest.peer_dependencies@[j]).1) by {
            let g: int = manifest.dependencies@.len() + j;
            lemma_table_done(*manifest, graph, all@, g, manifest.peer_dependencies@[j].1);
        }
        assert forall|j: int| 0 <= j < manifest.dev_dependencies@.len()
            implies root_dep_done(*manifest, graph,
                (#[trigger] manifest.dev_dependencies@[j]).1) by {
            let g: int = manifest.dependencies@.len() + manifest.peer_dependencies@.len() + j;
            lemma_table_done(*manifest, graph, all@, g, manifest.dev_dependencies@[j].1);
        }
    }
    Ok(graph)
}

/// The declaration at global position `g` of the merged table is the given
/// table entry, so its resolution carries over.
proof fn lemma_table_done(
    m: Manifest,
    gr: DependencyGraph,
    all: Seq<(String, (DependencySpecifiers, DependencyType))>,
    g: int,
    declared: DependencySpecifiers,
)
    requires
        deps_view(all) == m.spec_all_deps(),
        0 <= g < all.len(),
        all.len() == m.spec_all_deps().len(),
        crate::manifest::spec_all_at(m, g).1 == declared.view_v(),
        m.spec_all_deps()[g] == crate::manifest::spec_all_at(m, g),
        root_dep_done(m, gr, all[g].1.0),
    ensures
        root_dep_done(m, gr, declared),
{
    assert(deps_view(all)[g] == (all[g].0@, all[g].1.0.view_v(), all[g].1.1));
    assert(all[g].1.0.view_v() == declared.view_v());
    lemma_done_congruent(m, gr, all[g].1.0, declared);
}

/// The node at position `w` after the insertion answers the processed
/// item's declaration.
proof fn lemma_answers_at(
    w: int,
    m: Manifest,
    g_before: DependencyGraph,
    g_after: DependencyGraph,
    item_g: WorkItem,
    spec_used_g: DependencySpecifiers,
    ps: PesdeDependencySpecifier,
    rn: PackageNames,
    vid_g: VersionId,
    vv: Version,
    node_g: DependencyGraphNode,
    key: (crate::names::NameView, (Seq<char>, TargetKind)),
)
    requires
        item_g.top,
        queue_item_ok(m, item_g),
        spec_used_g.view_v() == spec_root_effective(m, item_g.spec).view_v(),
        spec_used_g == DependencySpecifiers::Pesde(ps),
        rn.spec_render() == ps.name.spec_render(),
        spec_matches(vv, ps.version),
        vid_g.view_v().0 == vv.view_v(),
        vid_g.target == m.target.kind,
        node_g.direct is Some,
        key == (rn.view_v(), vid_key(vid_g)),
        w == if !g_before.spec_has_key(key) { g_before.nodes@.len() as int } else {
            g_before.spec_index_of(key)
        },
        !g_before.spec_has_key(key) ==> crate::graph::inserted_fresh(g_before, g_after, rn,
            vid_g, node_g, true),
        g_before.spec_has_key(key) ==> {
            let i = g_before.spec_index_of(key);
            let e0 = g_before.nodes@[i];
            &&& g_after.nodes@.len() == g_before.nodes@.len()
            &&& g_after.nodes@[i].name == e0.name
            &&& g_after.nodes@[i].version == e0.version
            &&& g_after.nodes@[i].node.direct == (
                if e0.node.direct is None && node_g.direct is Some {
                    node_g.direct
                } else {
                    e0.node.direct
                })
        },
    ensures
        root_dep_done(m, g_after, item_g.spec),
{
    let eff = spec_root_effective(m, item_g.spec);
    lemma_spec_name_congruent(spec_used_g, eff);
    assert(spec_used_g.spec_name() == ps.name.spec_render());
    assert(spec_used_g.spec_req() == ps.version);
    lemma_render_version_congruent(vid_g.version, vv);
    crate::reqs::lemma_matches_congruent(vv, ps.version, eff.spec_req());
    if !g_before.spec_has_key(key) {
        let e = g_after.nodes@[w];
        assert(e.name == rn && e.version == vid_g);
        assert(e.node.direct == node_g.direct);
        assert(node_answers(m, e, item_g.spec));
    } else {
        let e = g_after.nodes@[w];
        let e0 = g_before.nodes@[w];
        assert(crate::graph::entry_key(e0) == key);
        assert(e.name.view_v() == rn.view_v());
        lemma_name_render_congruent(e.name, rn);
        assert(vid_key(e.version) == vid_key(vid_g));
        assert(spec_render_version(e.version.version) == spec_render_version(vid_g.version));
        assert(e.version.target == vid_g.target);
        assert(e.node.direct is Some);
        assert(node_answers(m, e, item_g.spec));
    }
}

/// A package name's rendering is a function of its view.
proof fn lemma_name_render_congruent(a: PackageNames, b: PackageNames)
    requires
        a.view_v() == b.view_v(),
    ensures
        a.spec_render() == b.spec_render(),
{
    match (a, b) {
        (PackageNames::Pesde(pa), PackageNames::Pesde(pb)) => {
        },
    }
}

/// How one node may change when an edge is recorded: identity untouched,
/// and at most one new edge, pointing at the child pair.
spec fn edge_step_ok(a: GraphEntry, b: GraphEntry, child_name: PackageNames, child_vid: VersionId)
    -> bool {
    &&& b.name == a.name
    &&& b.version == a.version
    &&& b.node.resolved_ty == a.node.resolved_ty
    &&& b.node.direct == a.node.direct
    &&& (b.node.dependencies@ == a.node.dependencies@
        || (b.node.dependencies@.len() == a.node.dependencies@.len() + 1
            && (forall|k: int| 0 <= k < a.node.dependencies@.len()
                ==> b.node.dependencies@[k] == a.node.dependencies@[k])
            && b.node.dependencies@.last().0 == child_name
            && b.node.dependencies@.last().1.0 == child_vid))
}

/// After an edge to the freshly inserted node is recorded, the graph
/// still preserves its nodes, keeps peers promoted and edges closed, and
/// keeps the inserted key.
proof fn lemma_after_edge(
    m: Manifest,
    g_mid: DependencyGraph,
    g_after: DependencyGraph,
    rn: PackageNames,
    vid_g: VersionId,
    child_name: PackageNames,
    child_vid: VersionId,
    key: (crate::names::NameView, (Seq<char>, TargetKind)),
)
    requires
        no_unpromoted_peer(m, g_mid),
        edges_closed(g_mid),
        g_mid.spec_has_key(key),
        key == (rn.view_v(), vid_key(vid_g)),
        child_name.view_v() == rn.view_v(),
        child_vid.view_v() == vid_g.view_v(),
        g_after.nodes@.len() == g_mid.nodes@.len(),
        forall|i: int| 0 <= i < g_mid.nodes@.len()
            ==> edge_step_ok(#[trigger] g_mid.nodes@[i], g_after.nodes@[i], child_name, child_vid),
    ensures
        preserves_nodes(g_mid, g_after),
        no_unpromoted_peer(m, g_after),
        edges_closed(g_after),
        g_after.spec_has_key(key),
{
    assert(preserves_nodes(g_mid, g_after));
    lemma_key_mono(g_mid, g_after, key);
    lemma_render_version_congruent(child_vid.version, vid_g.version);
    assert(child_vid.target == vid_g.target);
    assert(vid_key(child_vid) == vid_key(vid_g));
    assert forall|i: int| 0 <= i < g_after.nodes@.len()
        implies (root_declares_standard(m, (#[trigger] g_after.nodes@[i]).name.spec_render())
            ==> g_after.nodes@[i].node.resolved_ty != DependencyType::Peer) by {
        assert(g_after.nodes@[i].name == g_mid.nodes@[i].name);
        assert(g_after.nodes@[i].node.resolved_ty == g_mid.nodes@[i].node.resolved_ty);
    }
    assert forall|i: int, k: int| 0 <= i < g_after.nodes@.len()
        && 0 <= k < g_after.nodes@[i].node.dependencies@.len()
        implies g_after.spec_has_key(
            ((#[trigger] g_after.nodes@[i].node.dependencies@[k]).0.view_v(),
            vid_key(g_after.nodes@[i].node.dependencies@[k].1.0))) by {
        let a = g_mid.nodes@[i];
        let b = g_after.nodes@[i];
        if b.node.dependencies@ == a.node.dependencies@ {
            assert(g_mid.spec_has_key(((a.node.dependencies@[k]).0.view_v(),
                vid_key(a.node.dependencies@[k].1.0))));
            lemma_key_mono(g_mid, g_after,
                ((b.node.dependencies@[k]).0.view_v(),
                vid_key(b.node.dependencies@[k].1.0)));
        } else if k < a.node.dependencies@.len() {
            assert(b.node.dependencies@[k] == a.node.dependencies@[k]);
            assert(g_mid.spec_has_key(((a.node.dependencies@[k]).0.view_v(),
                vid_key(a.node.dependencies@[k].1.0))));
            lemma_key_mono(g_mid, g_after,
                ((a.node.dependencies@[k]).0.view_v(),
                vid_key(a.node.dependencies@[k].1.0)));
        } else {
            assert(b.node.dependencies@[k] == b.node.dependencies@.last());
            assert(b.node.dependencies@[k].0.view_v() == rn.view_v());
            assert(vid_key(b.node.dependencies@[k].1.0) == vid_key(vid_g));
            lemma_key_mono(g_mid, g_after, key);
        }
    }
}

/// What must hold of every queued item: a top-level item carries one of
/// the manifest's declared dependencies, and its path is that package's
/// one-name path.
spec fn queue_item_ok(m: Manifest, q: WorkItem) -> bool {
    q.top ==> {
        &&& exists|j: int| 0 <= j < m.spec_all_deps().len()
            && #[trigger] m.spec_all_deps()[j] == (q.alias@, q.spec.view_v(), q.ty)
        &&& crate::version::idents_view(q.path@) == seq![q.spec.spec_name()]
    }
}

/// Whether the queue still carries a top-level item for this declaration.
spec fn root_pending(q: Seq<WorkItem>, declared: DependencySpecifiers) -> bool {
    exists|k: int| 0 <= k < q.len() && (#[trigger] q[k]).top
        && q[k].spec.view_v() == declared.view_v()
}

/// Compares two rendered-name paths for equality.
fn paths_equal(a: &Vec<String>, b: &Vec<String>) -> (r: bool)
    ensures
        r == (crate::version::idents_view(a@) == crate::version::idents_view(b@)),
{
    crate::version::idents_eq(a, b)
}

/// Looks an index alias up in the manifest's index table.
fn lookup_index(indices: &Vec<(String, String)>, alias: &String) -> (r: Option<String>)
{
    let mut i: usize = 0;
    while i < indices.len()
        invariant
            i <= indices@.len(),
        decreases indices@.len() - i,
    {
        if crate::strutil::str_eq(indices[i].0.as_str(), alias.as_str()) {
            return Some(indices[i].1.clone());
        }
        i += 1;
    }
    None
}

} // verus!
