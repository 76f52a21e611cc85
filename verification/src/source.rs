//! Package sources: dependency specifiers, package references, and the
//! tagged sum of source kinds with its uniform resolve interface.

use vstd::prelude::*;
use std::collections::hash_map::DefaultHasher;
use std::hash::Hasher;
use crate::names::PackageNames;
use crate::reqs::VersionReq;
use crate::target::TargetKind;
use crate::version::VersionId;

verus! {

/// How a dependency was declared in a manifest.
#[derive(Clone, Copy, PartialEq, Eq, Structural, Debug)]
pub enum DependencyType {
    /// An ordinary dependency.
    Standard,
    /// A dependency the consumer is expected to supply.
    Peer,
    /// A dependency used only during development.
    Dev,
}

/// A dependency specifier of the first-party index: a name, a version
/// requirement, and an optional index alias.
#[derive(Clone, Debug)]
pub struct PesdeDependencySpecifier {
    /// The package name.
    pub name: PackageNames,
    /// The version requirement.
    pub version: VersionReq,
    /// The alias of the index the dependency comes from, when not the
    /// default one.
    pub index: Option<String>,
}

/// The sum of dependency specifier kinds over all supported source kinds.
#[derive(Clone, Debug)]
pub enum DependencySpecifiers {
    /// A specifier against the first-party index.
    Pesde(PesdeDependencySpecifier),
}

/// Marker trait for dependency specifiers.
pub trait DependencySpecifier {
}

impl DependencySpecifier for DependencySpecifiers {
}

impl DependencySpecifiers {
    /// The specifier is structurally valid.
    pub open spec fn wf(&self) -> bool {
        match self {
            DependencySpecifiers::Pesde(s) => s.name.wf() && s.version.wf(),
        }
    }

    /// The name the specifier asks for, rendered.
    pub open spec fn spec_name(&self) -> Seq<char> {
        match self {
            DependencySpecifiers::Pesde(s) => s.name.spec_render(),
        }
    }

    /// The version requirement of the specifier.
    pub open spec fn spec_req(&self) -> VersionReq {
        match self {
            DependencySpecifiers::Pesde(s) => s.version,
        }
    }
}

/// A package reference of the first-party index: the pinned identity of one
/// package version together with what is needed to download it.
#[derive(Clone, Debug)]
pub struct PesdePackageRef {
    /// The package name.
    pub name: PackageNames,
    /// The pinned version.
    pub version: crate::version::Version,
    /// The URL of the index the package comes from.
    pub index_url: String,
    /// The dependencies the pinned version declares.
    pub dependencies: Vec<(String, (DependencySpecifiers, DependencyType))>,
    /// The target the pinned version was published for.
    pub target: TargetKind,
}

/// The sum of package reference kinds over all supported source kinds.
#[derive(Clone, Debug)]
pub enum PackageRefs {
    /// A reference into the first-party index.
    Pesde(PesdePackageRef),
}

/// The operations every package reference offers.
pub trait PackageRef {
    /// The dependencies the referenced version declares.
    fn dependencies(&self) -> &Vec<(String, (DependencySpecifiers, DependencyType))>;
}

impl PackageRef for PackageRefs {
    fn dependencies(&self) -> &Vec<(String, (DependencySpecifiers, DependencyType))> {
        match self {
            PackageRefs::Pesde(pkg_ref) => &pkg_ref.dependencies,
        }
    }
}

impl PackageRefs {
    /// The dependencies the referenced version declares.
    pub open spec fn spec_dependencies(&self) -> Seq<(String, (DependencySpecifiers, DependencyType))> {
        match self {
            PackageRefs::Pesde(p) => p.dependencies@,
        }
    }

    /// The dependencies, with a contract.
    pub fn deps(&self) -> (r: &Vec<(String, (DependencySpecifiers, DependencyType))>)
        ensures
            r@ == self.spec_dependencies(),
    {
        match self {
            PackageRefs::Pesde(pkg_ref) => &pkg_ref.dependencies,
        }
    }

    /// The target kind of the referenced version.
    pub fn target_kind(&self) -> (r: TargetKind)
        ensures
            r == self.spec_target_kind(),
    {
        match self {
            PackageRefs::Pesde(p) => p.target,
        }
    }

    /// The target kind, in specifications.
    pub open spec fn spec_target_kind(&self) -> TargetKind {
        match self {
            PackageRefs::Pesde(p) => p.target,
        }
    }

    /// Whether the package uses the current container layout; references
    /// into the first-party index always do. Legacy wally-style layouts
    /// would answer `false` and fall back to a relative parent path.
    pub fn use_new_structure(&self) -> (r: bool)
        ensures
            r == self.spec_use_new_structure(),
    {
        match self {
            PackageRefs::Pesde(_) => true,
        }
    }

    /// `use_new_structure`, in specifications.
    pub open spec fn spec_use_new_structure(&self) -> bool {
        match self {
            PackageRefs::Pesde(_) => true,
        }
    }

    /// Whether the package follows wally conventions; first-party
    /// references do not.
    pub fn like_wally(&self) -> (r: bool)
        ensures
            r == !self.spec_use_new_structure(),
    {
        match self {
            PackageRefs::Pesde(_) => false,
        }
    }

    /// The source the reference downloads from.
    pub fn source(&self) -> (r: PackageSources)
        ensures
            r.spec_key() == self.spec_source_key(),
    {
        match self {
            PackageRefs::Pesde(p) => PackageSources::Pesde(PesdePackageSource {
                repo_url: p.index_url.clone(),
            }),
        }
    }

    /// The key of the source the reference downloads from.
    pub open spec fn spec_source_key(&self) -> Seq<char> {
        match self {
            PackageRefs::Pesde(p) => p.index_url@,
        }
    }
}

/// The first-party package source: a git-backed index mirror.
#[derive(Clone, Debug)]
pub struct PesdePackageSource {
    /// The URL of the index repository.
    pub repo_url: String,
}

/// The sum of package source kinds.
#[derive(Clone, Debug)]
pub enum PackageSources {
    /// The first-party index.
    Pesde(PesdePackageSource),
}

impl PackageSources {
    /// The identity of a source: its repository URL.
    pub open spec fn spec_key(&self) -> Seq<char> {
        match self {
            PackageSources::Pesde(s) => s.repo_url@,
        }
    }

    /// The repository URL of the source.
    pub fn key(&self) -> (r: &String)
        ensures
            r@ == self.spec_key(),
    {
        match self {
            PackageSources::Pesde(s) => &s.repo_url,
        }
    }
}

impl PartialEq for PackageSources {
    fn eq(&self, other: &PackageSources) -> (r: bool) {
        match (self, other) {
            (PackageSources::Pesde(a), PackageSources::Pesde(b)) => a.repo_url == b.repo_url,
        }
    }
}

impl vstd::std_specs::cmp::PartialEqSpecImpl for PackageSources {
    open spec fn obeys_eq_spec() -> bool {
        true
    }

    open spec fn eq_spec(&self, other: &PackageSources) -> bool {
        self.spec_key() == other.spec_key()
    }
}

/// A set of already-refreshed sources, deduplicated by source key. The
/// driver refreshes a source exactly when `insert` reports it as new, so a
/// source is refreshed at most once per run.
pub struct RefreshedSources {
    /// The keys of the sources refreshed so far.
    pub sources: Vec<PackageSources>,
}

impl RefreshedSources {
    /// Whether the set holds a source with this key.
    pub open spec fn spec_contains(&self, key: Seq<char>) -> bool {
        exists|i: int| 0 <= i < self.sources@.len()
            && (#[trigger] self.sources@[i]).spec_key() == key
    }

    /// An empty set.
    pub fn new() -> (r: RefreshedSources)
        ensures
            r.sources@.len() == 0,
    {
        RefreshedSources { sources: Vec::new() }
    }

    /// Whether the set holds this source.
    pub fn contains(&self, source: &PackageSources) -> (r: bool)
        ensures
            r == self.spec_contains(source.spec_key()),
    {
        let mut i: usize = 0;
        while i < self.sources.len()
            invariant
                i <= self.sources@.len(),
                forall|j: int| 0 <= j < i
                    ==> (#[trigger] self.sources@[j]).spec_key() != source.spec_key(),
            decreases self.sources@.len() - i,
        {
            if crate::strutil::str_eq(self.sources[i].key().as_str(), source.key().as_str()) {
                return true;
            }
            i += 1;
        }
        false
    }

    /// Adds a source; reports `true` when it was not there before (and so
    /// must be refreshed now).
    pub fn insert(&mut self, source: PackageSources) -> (r: bool)
        ensures
            r == !old(self).spec_contains(source.spec_key()),
            final(self).spec_contains(source.spec_key()),
            forall|k: Seq<char>| old(self).spec_contains(k) ==> final(self).spec_contains(k),
            forall|k: Seq<char>| final(self).spec_contains(k)
                ==> old(self).spec_contains(k) || k == source.spec_key(),
    {
        if self.contains(&source) {
            false
        } else {
            let ghost before = self.sources@;
            self.sources.push(source);
            proof {
                assert(self.sources@.last() == source);
                assert forall|k: Seq<char>| old(self).spec_contains(k)
                    implies final(self).spec_contains(k) by {
                    let i = choose|i: int| 0 <= i < before.len()
                        && (#[trigger] before[i]).spec_key() == k;
                    assert(self.sources@[i].spec_key() == k);
                }
                assert forall|k: Seq<char>| final(self).spec_contains(k)
                    && k != source.spec_key() implies old(self).spec_contains(k) by {
                    let i = choose|i: int| 0 <= i < self.sources@.len()
                        && (#[trigger] self.sources@[i]).spec_key() == k;
                    assert(i < before.len());
                    assert(before[i].spec_key() == k);
                }
            }
            true
        }
    }
}

/// Errors of the uniform resolve operation.
#[derive(Clone, Debug)]
pub enum ResolveError {
    /// The specifier kind does not belong to the source kind it was handed
    /// to.
    Mismatch,
    /// The index has no package of the requested name. Carries the
    /// rendered name.
    NotFound(String),
}

/// Errors of the uniform download operation.
#[derive(Clone, Debug)]
pub enum DownloadError {
    /// The package reference kind does not belong to the source kind it was
    /// handed to.
    Mismatch,
}

/// Errors of the uniform refresh operation, one per stage of bringing a
/// mirror up to date. The driver performs the git traffic; this type
/// carries its outcome through the engine. Each variant carries the
/// repository path or URL it concerns and the driver's message.
#[derive(Clone, Debug)]
pub enum RefreshError {
    /// The filesystem failed.
    Io(String, String),
    /// The existing mirror could not be opened.
    Open(String, String),
    /// The mirror has no default remote.
    NoDefaultRemote(String),
    /// The default remote could not be read.
    GetDefaultRemote(String, String),
    /// Connecting to the remote failed.
    Connect(String, String),
    /// Preparing the fetch failed.
    PrepareFetch(String, String),
    /// Receiving from the remote failed.
    Read(String, String),
    /// Preparing the bare clone failed.
    Clone(String, String),
    /// Fetching into the fresh clone failed.
    Fetch(String, String),
}

/// Hashes a value with the standard library's default hasher and renders
/// the result in decimal. The output identifies a value within one run;
/// it is not stable across processes or toolchains, so no contract may
/// name it as a function of the input - within-run determinism is
/// documented std behaviour that callers can test but not assume in
/// proofs. (The content store therefore deduplicates by the bytes
/// themselves, not by this digest; a content-addressed layout meant to
/// survive across machines would need a real cryptographic digest.)
///
/// Relies on std's `DefaultHasher::new`, whose instances all compute the
/// same function within one program, and on `Hasher::finish`.
#[verifier::external_body]
pub fn hash<S: std::hash::Hash>(struc: &S) -> (r: String)
    ensures
        r@.len() > 0,
{
    let mut hasher = DefaultHasher::new();
    struc.hash(&mut hasher);
    hasher.finish().to_string()
}

impl PesdePackageSource {
    /// Creates a source for the index at `repo_url`.
    pub fn new(repo_url: String) -> (r: PesdePackageSource)
        ensures
            r.repo_url@ == repo_url@,
    {
        PesdePackageSource { repo_url }
    }

    /// Resolves a specifier against a decoded snapshot of this source's
    /// index: every published entry of the named package becomes a
    /// candidate `(version id, reference)` pair. Requirement and target
    /// filtering is the resolver's business, so that it can tell apart "no
    /// version satisfies" from "satisfies but wrong target".
    pub fn resolve(
        &self,
        specifier: &PesdeDependencySpecifier,
        index: &crate::index::Index,
    ) -> (r: Result<(PackageNames, Vec<(VersionId, PackageRefs)>), ResolveError>)
        requires
            index.wf(),
        ensures
            r matches Ok(rr) ==> {
                &&& index.spec_has_package(specifier.name.spec_render())
                &&& rr.0.spec_render() == specifier.name.spec_render()
                &&& rr.1@.len() == index.spec_package(specifier.name.spec_render()).entries@.len()
                &&& forall|i: int| 0 <= i < rr.1@.len()
                    ==> candidate_of(#[trigger] rr.1@[i],
                        index.spec_package(specifier.name.spec_render()).entries@[i],
                        self.repo_url@, specifier.name.view_v())
            },
            r matches Err(e) ==> e is NotFound
                && !index.spec_has_package(specifier.name.spec_render()),
    {
        let file = match index.lookup(&specifier.name) {
            Some(f) => f,
            None => { return Err(ResolveError::NotFound(specifier.name.render())); },
        };
        let mut out: Vec<(VersionId, PackageRefs)> = Vec::new();
        let ghost entries = file.entries@;
        let mut i: usize = 0;
        while i < file.entries.len()
            invariant
                entries == file.entries@,
                i <= entries.len(),
                out@.len() == i,
                forall|j: int| 0 <= j < i
                    ==> candidate_of(#[trigger] out@[j], entries[j], self.repo_url@,
                        specifier.name.view_v()),
            decreases entries.len() - i,
        {
            let entry = &file.entries[i];
            let vid = entry.0.clone_id();
            let pkg_ref = PackageRefs::Pesde(PesdePackageRef {
                name: specifier.name.clone_name(),
                version: entry.0.version.clone_version(),
                index_url: self.repo_url.clone(),
                dependencies: clone_deps(&entry.1.dependencies),
                target: entry.0.target,
            });
            out.push((vid, pkg_ref));
            i += 1;
        }
        let name = specifier.name.clone_name();
        proof {
            let key = specifier.name.spec_render();
            let i0 = choose|i: int| 0 <= i < index.packages@.len()
                && (#[trigger] index.packages@[i]).0.spec_render() == key
                && file == &index.packages@[i].1;
            let i1 = index.spec_package_at(key);
            assert(0 <= i1 < index.packages@.len()
                && index.packages@[i1].0.spec_render() == key);
            if i0 != i1 {
                if i0 < i1 {
                    assert(index.packages@[i0].0.spec_render()
                        != index.packages@[i1].0.spec_render());
                } else {
                    assert(index.packages@[i1].0.spec_render()
                        != index.packages@[i0].0.spec_render());
                }
            }
            assert(index.spec_package(key) == index.packages@[i0].1);
        }
        Ok((name, out))
    }
}

/// The view of a dependency specifier: the name's segments, the
/// requirement's view, and the index alias.
pub type SpecifierView = (crate::names::NameView, crate::reqs::ReqView, Option<Seq<char>>);

impl DependencySpecifiers {
    /// The specifier's view.
    pub open spec fn view_v(&self) -> SpecifierView {
        match self {
            DependencySpecifiers::Pesde(s) => (
                s.name.view_v(),
                s.version.view_v(),
                match s.index {
                    Some(x) => Some(x@),
                    None => None,
                },
            ),
        }
    }

    /// Copies a specifier; the copy has the same view and validity.
    pub fn clone_spec(&self) -> (r: DependencySpecifiers)
        ensures
            r.view_v() == self.view_v(),
            r.wf() == self.wf(),
    {
        match self {
            DependencySpecifiers::Pesde(s) => {
                let index = match &s.index {
                    Some(x) => Some(x.clone()),
                    None => None,
                };
                let r = DependencySpecifiers::Pesde(PesdeDependencySpecifier {
                    name: s.name.clone_name(),
                    version: s.version.clone_req(),
                    index,
                });
                proof {
                    match &r {
                        DependencySpecifiers::Pesde(rs) => {
                            crate::reqs::lemma_wf_congruent(rs.version, s.version);
                        },
                    }
                }
                r
            },
        }
    }
}

/// The view of one declared dependency: alias, specifier view, declared
/// type.
pub type DepView = (Seq<char>, SpecifierView, DependencyType);

/// The view of a dependency list.
pub open spec fn deps_view(
    d: Seq<(String, (DependencySpecifiers, DependencyType))>,
) -> Seq<DepView> {
    d.map_values(|p: (String, (DependencySpecifiers, DependencyType))| (p.0@, p.1.0.view_v(), p.1.1))
}

/// What it means for a candidate pair to faithfully reflect one index
/// entry for the package named `name` from the index at `url`.
pub open spec fn candidate_of(
    c: (VersionId, PackageRefs),
    e: (VersionId, crate::index::IndexFileEntry),
    url: Seq<char>,
    name: crate::names::NameView,
) -> bool {
    &&& c.0.view_v() == e.0.view_v()
    &&& match c.1 {
        PackageRefs::Pesde(p) => {
            &&& p.name.view_v() == name
            &&& p.version.view_v() == e.0.version.view_v()
            &&& p.target == e.0.target
            &&& p.index_url@ == url
            &&& deps_view(p.dependencies@) == deps_view(e.1.dependencies@)
        },
    }
}

/// Clones a dependency list. Derived clones carry no specification, so the
/// copy is rebuilt element by element; the copy has the same view.
pub fn clone_deps(
    deps: &Vec<(String, (DependencySpecifiers, DependencyType))>,
) -> (r: Vec<(String, (DependencySpecifiers, DependencyType))>)
    ensures
        deps_view(r@) == deps_view(deps@),
{
    let mut out: Vec<(String, (DependencySpecifiers, DependencyType))> = Vec::new();
    let mut i: usize = 0;
    while i < deps.len()
        invariant
            i <= deps@.len(),
            out@.len() == i,
            forall|j: int| 0 <= j < i ==> deps_view(out@)[j] == deps_view(deps@)[j],
        decreases deps@.len() - i,
    {
        let (alias, (spec, ty)) = &deps[i];
        out.push((alias.clone(), (spec.clone_spec(), *ty)));
        proof {
            assert(deps_view(out@)[i as int] == deps_view(deps@)[i as int]);
        }
        i += 1;
    }
    proof {
        assert(deps_view(out@) =~= deps_view(deps@));
    }
    out
}

} // verus!

verus! {

/// The view of a package reference.
pub type RefView = (crate::names::NameView, crate::version::VersionView, Seq<char>, Seq<DepView>,
    TargetKind);

impl PackageRefs {
    /// The reference's view.
    pub open spec fn view_v(&self) -> RefView {
        match self {
            PackageRefs::Pesde(p) => (
                p.name.view_v(),
                p.version.view_v(),
                p.index_url@,
                deps_view(p.dependencies@),
                p.target,
            ),
        }
    }

    /// Copies a reference; the copy has the same view.
    pub fn clone_ref(&self) -> (r: PackageRefs)
        ensures
            r.view_v() == self.view_v(),
    {
        match self {
            PackageRefs::Pesde(p) => PackageRefs::Pesde(PesdePackageRef {
                name: p.name.clone_name(),
                version: p.version.clone_version(),
                index_url: p.index_url.clone(),
                dependencies: clone_deps(&p.dependencies),
                target: p.target,
            }),
        }
    }
}

} // verus!
