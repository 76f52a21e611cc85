//! The project manifest model: identity, target, indices, scripts,
//! overrides, patches, and the three dependency tables.

use vstd::prelude::*;
use crate::names::{PackageName, PackageNames};
use crate::source::{DependencySpecifiers, DependencyType, DepView, deps_view};
use crate::version::{Version, VersionId};

verus! {

/// An override key: the path of package names, from a direct dependency
/// down, at which a specifier is to be replaced.
#[derive(Clone, Debug)]
pub struct OverrideKey {
    /// The rendered package names along the path.
    pub path: Vec<String>,
}

impl OverrideKey {
    /// The key's view: its rendered names.
    pub open spec fn view_v(&self) -> Seq<Seq<char>> {
        self.path@.map_values(|s: String| s@)
    }
}

/// A parsed project manifest.
#[derive(Clone, Debug)]
pub struct Manifest {
    /// The project's own package name.
    pub name: PackageName,
    /// The project's version.
    pub version: Version,
    /// The project's target.
    pub target: crate::index::Target,
    /// An optional description.
    pub description: Option<String>,
    /// The authors, possibly empty.
    pub authors: Vec<String>,
    /// An optional repository URL.
    pub repository: Option<String>,
    /// An optional license identifier.
    pub license: Option<String>,
    /// Index alias to index URL.
    pub indices: Vec<(String, String)>,
    /// Script name to relative script path.
    pub scripts: Vec<(String, String)>,
    /// Overrides: key path to replacement specifier.
    pub overrides: Vec<(OverrideKey, DependencySpecifiers)>,
    /// Patches: package name to patched version to patch file path.
    pub patches: Vec<(PackageNames, Vec<(VersionId, String)>)>,
    /// The standard dependencies: alias to specifier.
    pub dependencies: Vec<(String, DependencySpecifiers)>,
    /// The peer dependencies: alias to specifier.
    pub peer_dependencies: Vec<(String, DependencySpecifiers)>,
    /// The development dependencies: alias to specifier.
    pub dev_dependencies: Vec<(String, DependencySpecifiers)>,
    /// Workspace member globs.
    pub workspace_members: Vec<String>,
}

/// One dependency table tagged with its declared type, as views.
pub open spec fn table_view(
    l: Seq<(String, DependencySpecifiers)>,
    ty: DependencyType,
) -> Seq<DepView> {
    l.map_values(|p: (String, DependencySpecifiers)| (p.0@, p.1.view_v(), ty))
}

/// Whether an alias occurs twice in a dependency list view.
pub open spec fn has_duplicate_alias(l: Seq<DepView>) -> bool {
    exists|i: int, j: int| 0 <= i < j < l.len() && (#[trigger] l[i]).0 == (#[trigger] l[j]).0
}

/// An error merging the dependency tables.
#[derive(Clone, Debug)]
pub enum AllDependenciesError {
    /// Two tables (or one table twice) declare the same alias. Carries the
    /// alias.
    AliasConflict(String),
}

impl Manifest {
    /// The declared dependencies of the project: the three tables, tagged
    /// with their declared types, in table order.
    pub open spec fn spec_all_deps(&self) -> Seq<DepView> {
        table_view(self.dependencies@, DependencyType::Standard)
            + table_view(self.peer_dependencies@, DependencyType::Peer)
            + table_view(self.dev_dependencies@, DependencyType::Dev)
    }

    /// The project's target kind.
    pub fn target_kind(&self) -> (r: crate::target::TargetKind)
        ensures
            r == self.target.kind,
    {
        self.target.kind
    }

    /// Merges the three dependency tables into one alias-keyed list,
    /// declared types tagged on. Fails exactly when one alias is declared
    /// twice.
    pub fn all_dependencies(&self) -> (r: Result<
        Vec<(String, (DependencySpecifiers, DependencyType))>,
        AllDependenciesError,
    >)
        ensures
            r matches Ok(m) ==> deps_view(m@) == self.spec_all_deps()
                && !has_duplicate_alias(self.spec_all_deps()),
            r is Err <==> has_duplicate_alias(self.spec_all_deps()),
    {
        let ghost all = self.spec_all_deps();
        proof {
            lemma_all_deps_shape(*self);
        }
        let mut out: Vec<(String, (DependencySpecifiers, DependencyType))> = Vec::new();
        let mut t: usize = 0;
        while t < 3
            invariant
                t <= 3,
                all == self.spec_all_deps(),
                all.len() == self.dependencies@.len() + self.peer_dependencies@.len()
                    + self.dev_dependencies@.len(),
                forall|g: int| 0 <= g < all.len() ==> (#[trigger] all[g]) == spec_all_at(*self, g),
                out@.len() == spec_offset(*self, t as int),
                forall|j: int| 0 <= j < out@.len() ==> (#[trigger] deps_view(out@)[j]) == all[j],
                forall|a: int, b: int| 0 <= a < b < out@.len()
                    ==> (#[trigger] deps_view(out@)[a]).0 != (#[trigger] deps_view(out@)[b]).0,
            decreases 3 - t,
        {
            let (table, ty): (&Vec<(String, DependencySpecifiers)>, DependencyType) = if t == 0 {
                (&self.dependencies, DependencyType::Standard)
            } else if t == 1 {
                (&self.peer_dependencies, DependencyType::Peer)
            } else {
                (&self.dev_dependencies, DependencyType::Dev)
            };
            let mut i: usize = 0;
            while i < table.len()
                invariant
                    t < 3,
                    all == self.spec_all_deps(),
                    all.len() == self.dependencies@.len() + self.peer_dependencies@.len()
                        + self.dev_dependencies@.len(),
                    forall|g: int| 0 <= g < all.len() ==> (#[trigger] all[g]) == spec_all_at(*self, g),
                    table@ == spec_table(*self, t as int),
                    ty == spec_ty(t as int),
                    i <= table@.len(),
                    out@.len() == spec_offset(*self, t as int) + i,
                    forall|j: int| 0 <= j < out@.len() ==> (#[trigger] deps_view(out@)[j]) == all[j],
                    forall|a: int, b: int| 0 <= a < b < out@.len()
                        ==> (#[trigger] deps_view(out@)[a]).0 != (#[trigger] deps_view(out@)[b]).0,
                decreases table@.len() - i,
            {
                let ghost g = out@.len() as int;
                proof {
                    assert(g < all.len());
                    assert(all[g] == spec_all_at(*self, g));
                    assert(all[g] == (table@[i as int].0@, table@[i as int].1.view_v(),
                        spec_ty(t as int)));
                }
                let (alias, spec) = &table[i];
                let ghost out0 = out@;
                // Reject an alias that is already taken.
                let mut k: usize = 0;
                while k < out.len()
                    invariant
                        all == self.spec_all_deps(),
                        i < table@.len(),
                        alias@ == table@[i as int].0@,
                        out@ == out0,
                        g == out@.len(),
                        g < all.len(),
                        all[g] == (table@[i as int].0@, table@[i as int].1.view_v(),
                            spec_ty(t as int)),
                        k <= out@.len(),
                        forall|j: int| 0 <= j < k
                            ==> (#[trigger] deps_view(out@)[j]).0 != table@[i as int].0@,
                        forall|j: int| 0 <= j < out@.len()
                            ==> (#[trigger] deps_view(out@)[j]) == all[j],
                    decreases out@.len() - k,
                {
                    if crate::strutil::str_eq(out[k].0.as_str(), alias.as_str()) {
                        proof {
                            assert(deps_view(out@)[k as int].0 == out@[k as int].0@);
                            assert(all[k as int].0 == all[g].0);
                            assert(0 <= k < all.len() && 0 <= g < all.len() && (k as int) < g);
                            assert(has_duplicate_alias(all));
                        }
                        return Err(AllDependenciesError::AliasConflict(alias.clone()));
                    }
                    k += 1;
                }
                out.push((alias.clone(), (spec.clone_spec(), ty)));
                proof {
                    assert(out@.take(g) =~= out0);
                    assert(deps_view(out@)[g] == (out@[g].0@, out@[g].1.0.view_v(), out@[g].1.1));
                    assert(deps_view(out@)[g] == all[g]);
                    assert forall|j: int| 0 <= j < out@.len()
                        implies (#[trigger] deps_view(out@)[j]) == all[j] by {
                        if j < g {
                            assert(out@[j] == out0[j]);
                            assert(deps_view(out0)[j] == all[j]);
                            assert(deps_view(out@)[j]
                                == (out@[j].0@, out@[j].1.0.view_v(), out@[j].1.1));
                            assert(deps_view(out0)[j]
                                == (out0[j].0@, out0[j].1.0.view_v(), out0[j].1.1));
                        }
                    }
                    assert forall|a: int, b: int| 0 <= a < b < out@.len()
                        implies (#[trigger] deps_view(out@)[a]).0
                            != (#[trigger] deps_view(out@)[b]).0 by {
                        assert(deps_view(out@)[a] == all[a]);
                        assert(deps_view(out@)[b] == all[b]);
                        if b == g {
                            assert(deps_view(out0)[a].0 != table@[i as int].0@);
                            assert(deps_view(out0)[a] == all[a]);
                        } else {
                            assert(deps_view(out0)[a] == all[a]);
                            assert(deps_view(out0)[b] == all[b]);
                            assert(deps_view(out0)[a].0 != deps_view(out0)[b].0);
                        }
                    }
                }
                i += 1;
            }
            t += 1;
        }
        proof {
            assert(deps_view(out@) =~= all);
            assert(!has_duplicate_alias(all)) by {
                if has_duplicate_alias(all) {
                    let (a, b) = choose|a: int, b: int| 0 <= a < b < all.len()
                        && (#[trigger] all[a]).0 == (#[trigger] all[b]).0;
                    assert(deps_view(out@)[a].0 != deps_view(out@)[b].0);
                }
            }
        }
        Ok(out)
    }
}

/// The dependency table of one slot: standard, peer, development.
pub open spec fn spec_table(m: Manifest, t: int) -> Seq<(String, DependencySpecifiers)> {
    if t == 0 {
        m.dependencies@
    } else if t == 1 {
        m.peer_dependencies@
    } else {
        m.dev_dependencies@
    }
}

/// The declared type of one table slot.
pub open spec fn spec_ty(t: int) -> DependencyType {
    if t == 0 {
        DependencyType::Standard
    } else if t == 1 {
        DependencyType::Peer
    } else {
        DependencyType::Dev
    }
}

/// Where one table starts in the merged list.
pub open spec fn spec_offset(m: Manifest, t: int) -> int {
    if t <= 0 {
        0
    } else if t == 1 {
        m.dependencies@.len() as int
    } else if t == 2 {
        m.dependencies@.len() + m.peer_dependencies@.len() as int
    } else {
        m.spec_all_deps().len() as int
    }
}

/// The merged list, element by element.
pub open spec fn spec_all_at(m: Manifest, g: int) -> DepView {
    if g < m.dependencies@.len() {
        (m.dependencies@[g].0@, m.dependencies@[g].1.view_v(), DependencyType::Standard)
    } else if g < m.dependencies@.len() + m.peer_dependencies@.len() {
        let j = g - m.dependencies@.len();
        (m.peer_dependencies@[j].0@, m.peer_dependencies@[j].1.view_v(), DependencyType::Peer)
    } else {
        let j = g - m.dependencies@.len() - m.peer_dependencies@.len();
        (m.dev_dependencies@[j].0@, m.dev_dependencies@[j].1.view_v(), DependencyType::Dev)
    }
}

/// The merged list has the three tables' lengths and elements.
pub proof fn lemma_all_deps_shape(m: Manifest)
    ensures
        m.spec_all_deps().len() == m.dependencies@.len() + m.peer_dependencies@.len()
            + m.dev_dependencies@.len(),
        forall|g: int| 0 <= g < m.spec_all_deps().len()
            ==> (#[trigger] m.spec_all_deps()[g]) == spec_all_at(m, g),
{
    let a = table_view(m.dependencies@, DependencyType::Standard);
    let b = table_view(m.peer_dependencies@, DependencyType::Peer);
    let c = table_view(m.dev_dependencies@, DependencyType::Dev);
    assert(a.len() == m.dependencies@.len());
    assert(b.len() == m.peer_dependencies@.len());
    assert(c.len() == m.dev_dependencies@.len());
    assert forall|g: int| 0 <= g < m.spec_all_deps().len()
        implies (#[trigger] m.spec_all_deps()[g]) == spec_all_at(m, g) by {
        if g < a.len() {
            assert(m.spec_all_deps()[g] == a[g]);
            assert(a[g] == (m.dependencies@[g].0@, m.dependencies@[g].1.view_v(),
                DependencyType::Standard));
        } else if g < a.len() + b.len() {
            assert(m.spec_all_deps()[g] == b[g - a.len()]);
            assert(b[g - a.len()] == (m.peer_dependencies@[g - a.len()].0@,
                m.peer_dependencies@[g - a.len()].1.view_v(), DependencyType::Peer));
        } else {
            assert(m.spec_all_deps()[g] == c[g - a.len() - b.len()]);
            assert(c[g - a.len() - b.len()] == (m.dev_dependencies@[g - a.len() - b.len()].0@,
                m.dev_dependencies@[g - a.len() - b.len()].1.view_v(), DependencyType::Dev));
        }
    }
}

} // verus!
