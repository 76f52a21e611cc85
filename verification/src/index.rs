//! The in-memory model of a package index: what the resolver reads from the
//! git-backed catalog once the driver has fetched and decoded it.

use vstd::prelude::*;
use crate::names::PackageNames;
use crate::target::TargetKind;
use crate::version::VersionId;
use crate::source::{DependencySpecifiers, DependencyType};

verus! {

/// A target descriptor: the environment a package build is for and the
/// files it exposes.
#[derive(Clone, Debug)]
pub struct Target {
    /// The environment.
    pub kind: TargetKind,
    /// The path of the library entry file inside the container, as
    /// segments, if the package exports a library.
    pub lib_path: Option<Vec<String>>,
    /// The path of the binary entry file inside the container, as
    /// segments, if the package exports a binary.
    pub bin_path: Option<Vec<String>>,
    /// Build files for Roblox sync-config generation; empty for targets
    /// that have none.
    pub build_files: Vec<String>,
}

impl Target {
    /// The environment this target is for.
    pub fn target_kind(&self) -> (r: TargetKind)
        ensures
            r == self.kind,
    {
        self.kind
    }
}

/// One published version of a package, as recorded in its index file.
#[derive(Clone, Debug)]
pub struct IndexFileEntry {
    /// The target the version was published for.
    pub target: Target,
    /// Seconds since the epoch at publish time.
    pub published_at: u64,
    /// An optional free-form description.
    pub description: Option<String>,
    /// The version's own dependencies: alias to specifier and declared type.
    pub dependencies: Vec<(String, (DependencySpecifiers, DependencyType))>,
}

/// The index file of one package: its published versions in file order.
#[derive(Clone, Debug)]
pub struct IndexFile {
    /// Version identifier to entry.
    pub entries: Vec<(VersionId, IndexFileEntry)>,
}

/// A decoded snapshot of one package index.
#[derive(Clone, Debug)]
pub struct Index {
    /// Package name to index file.
    pub packages: Vec<(PackageNames, IndexFile)>,
}

impl Index {
    /// Package names are unique within a snapshot.
    pub open spec fn wf(&self) -> bool {
        forall|i: int, j: int| 0 <= i < j < self.packages@.len()
            ==> (#[trigger] self.packages@[i]).0.spec_render()
                != (#[trigger] self.packages@[j]).0.spec_render()
    }

    /// Whether some package in the snapshot has the given rendered name.
    pub open spec fn spec_has_package(&self, name: Seq<char>) -> bool {
        exists|i: int| 0 <= i < self.packages@.len()
            && (#[trigger] self.packages@[i]).0.spec_render() == name
    }

    /// The index file of the first package with the given rendered name.
    pub open spec fn spec_package(&self, name: Seq<char>) -> IndexFile {
        self.packages@[self.spec_package_at(name)].1
    }

    /// The position of the first package with the given rendered name.
    pub open spec fn spec_package_at(&self, name: Seq<char>) -> int {
        choose|i: int| 0 <= i < self.packages@.len()
            && (#[trigger] self.packages@[i]).0.spec_render() == name
    }

    /// Looks a package up by name.
    pub fn lookup(&self, name: &PackageNames) -> (r: Option<&IndexFile>)
        ensures
            r is Some <==> self.spec_has_package(name.spec_render()),
            r matches Some(f) ==> exists|i: int| 0 <= i < self.packages@.len()
                && (#[trigger] self.packages@[i]).0.spec_render() == name.spec_render()
                && f == &self.packages@[i].1,
    {
        let key = name.render();
        let mut i: usize = 0;
        while i < self.packages.len()
            invariant
                key@ == name.spec_render(),
                i <= self.packages@.len(),
                forall|j: int| 0 <= j < i
                    ==> (#[trigger] self.packages@[j]).0.spec_render() != name.spec_render(),
            decreases self.packages@.len() - i,
        {
            let candidate = self.packages[i].0.render();
            if crate::strutil::str_eq(candidate.as_str(), key.as_str()) {
                return Some(&self.packages[i].1);
            }
            i += 1;
        }
        None
    }
}

} // verus!
