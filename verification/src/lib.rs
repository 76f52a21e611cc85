//! The dependency engine of a package manager for Luau projects.
//!
//! A project declares its dependencies in a manifest; the engine resolves a
//! pinned dependency graph against a package index, plans the download of
//! every pinned node into a content-addressed store, generates linker shims
//! so user code can `require` dependencies by alias, and records the outcome
//! in a lockfile that reproduces the same graph on the next run.

pub mod cas;
pub mod cli;
pub mod download;
pub mod graph;
pub mod index;
pub mod linker;
pub mod lockfile;
pub mod manifest;
pub mod names;
pub mod paths;
pub mod registry;
pub mod reqs;
pub mod resolver;
pub mod source;
pub mod strutil;
pub mod target;
pub mod version;

use vstd::prelude::*;

verus! {

/// The name of the folder that holds one container per installed package
/// version inside a packages folder.
pub fn packages_container_name() -> (r: &'static str)
    ensures
        r@ == ".pesde"@,
{
    ".pesde"
}

} // verus!
