//! Target kinds: the runtime environment a package is built for, and the
//! packages-folder layout keyed by target pairs.

use vstd::prelude::*;

verus! {

/// The runtime environment a package is built for. Equality is by tag.
#[derive(Clone, Copy, PartialEq, Eq, Structural, Debug, Hash)]
pub enum TargetKind {
    /// The Roblox runtime (client).
    Roblox,
    /// The Roblox runtime (server side).
    RobloxServer,
    /// The standalone Lune runtime.
    Lune,
    /// Plain Luau.
    Luau,
}

/// The canonical tag of a target kind, as written in manifests and lockfiles.
pub open spec fn spec_target_name(t: TargetKind) -> Seq<char> {
    match t {
        TargetKind::Roblox => "roblox"@,
        TargetKind::RobloxServer => "roblox_server"@,
        TargetKind::Lune => "lune"@,
        TargetKind::Luau => "luau"@,
    }
}

/// The folder that packages of target `dep` go into under a project of
/// target `base`: `packages` when the targets agree, `<dep>_packages`
/// otherwise.
pub open spec fn spec_packages_folder(base: TargetKind, dep: TargetKind) -> Seq<char> {
    if base == dep {
        "packages"@
    } else {
        spec_target_name(dep) + "_packages"@
    }
}

impl TargetKind {
    /// Renders the target kind as its canonical tag.
    pub fn as_str(&self) -> (r: &'static str)
        ensures
            r@ == spec_target_name(*self),
    {
        match self {
            TargetKind::Roblox => "roblox",
            TargetKind::RobloxServer => "roblox_server",
            TargetKind::Lune => "lune",
            TargetKind::Luau => "luau",
        }
    }

    /// Parses a canonical tag back into a target kind; tags are compared
    /// byte-exactly and anything else is rejected.
    pub fn from_str(s: &str) -> (r: Option<TargetKind>)
        ensures
            r matches Some(t) ==> s@ == spec_target_name(t),
            r is None ==> forall|t: TargetKind| s@ != spec_target_name(t),
    {
        let candidates = Self::variants();
        let mut i: usize = 0;
        while i < candidates.len()
            invariant
                candidates@ =~= seq![
                    TargetKind::Roblox,
                    TargetKind::RobloxServer,
                    TargetKind::Lune,
                    TargetKind::Luau,
                ],
                i <= candidates@.len(),
                forall|j: int| 0 <= j < i ==> s@ != spec_target_name(candidates@[j]),
            decreases candidates@.len() - i,
        {
            let c = candidates[i];
            if crate::strutil::str_eq(s, c.as_str()) {
                return Some(c);
            }
            i += 1;
        }
        proof {
            assert(s@ != spec_target_name(candidates@[0]));
            assert(s@ != spec_target_name(candidates@[1]));
            assert(s@ != spec_target_name(candidates@[2]));
            assert(s@ != spec_target_name(candidates@[3]));
            assert forall|t: TargetKind| s@ != spec_target_name(t) by {
                match t {
                    TargetKind::Roblox => assert(s@ != spec_target_name(candidates@[0])),
                    TargetKind::RobloxServer => assert(s@ != spec_target_name(candidates@[1])),
                    TargetKind::Lune => assert(s@ != spec_target_name(candidates@[2])),
                    TargetKind::Luau => assert(s@ != spec_target_name(candidates@[3])),
                }
            }
        }
        None
    }

    /// All target kinds, in declaration order.
    pub fn variants() -> (r: Vec<TargetKind>)
        ensures
            r@ =~= seq![
                TargetKind::Roblox,
                TargetKind::RobloxServer,
                TargetKind::Lune,
                TargetKind::Luau,
            ],
    {
        let mut v: Vec<TargetKind> = Vec::new();
        v.push(TargetKind::Roblox);
        v.push(TargetKind::RobloxServer);
        v.push(TargetKind::Lune);
        v.push(TargetKind::Luau);
        v
    }

    /// The folder that packages of target `dependency` are stored in under a
    /// project whose own target is `self`.
    pub fn packages_folder(&self, dependency: &TargetKind) -> (r: String)
        ensures
            r@ == spec_packages_folder(*self, *dependency),
    {
        if *self == *dependency {
            String::from_str("packages")
        } else {
            let base = String::from_str(dependency.as_str());
            base.concat("_packages")
        }
    }
}

} // verus!
