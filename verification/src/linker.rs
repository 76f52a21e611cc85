//! The linker: computes require paths from shim files into package
//! containers, generates the shim modules themselves, and plans which shim
//! goes where for a downloaded graph.

use vstd::prelude::*;
use crate::graph::{DownloadedGraph, DownloadedEntry, downloaded_key, vid_key};
use crate::names::PackageNames;
use crate::paths::{
    segs_view, spec_relativize, spec_resolve, spec_render_rel, valid_abs_path, relativize,
    render_rel, lemma_relativize_resolve,
};
use crate::target::{TargetKind, spec_packages_folder};
use crate::version::{VersionId, idents_view, spec_render_version};

verus! {

/// The exported type declarations of a Luau source, as the parser renders
/// them. A function of the text alone.
pub uninterp spec fn exported_types_of(s: Seq<char>) -> Seq<Seq<char>>;

/// Whether a text is a well-formed Luau source. A function of the text
/// alone: the parser accepts or rejects deterministically.
pub uninterp spec fn luau_parses(s: Seq<char>) -> bool;

/// Errors that can occur while linking dependencies.
#[derive(Debug)]
pub enum LinkingError {
    /// A node's recorded dependency is not in the graph. Carries the
    /// rendered name and version id.
    DependencyNotFound(String, String),
    /// A package claims a library file whose contents were not supplied.
    /// Carries the rendered path of the missing file.
    LibFileNotFound(String),
    /// The library file does not parse as Luau. Carries the rendered path
    /// and the parser's errors.
    FullMoon(String, Vec<full_moon::Error>),
    /// The sync-config generator script failed on a container. Carries the
    /// rendered container path and the driver's message.
    GenerateRobloxSyncConfig(String, String),
}

#[verifier::external_type_specification]
#[verifier::external_body]
/// The Luau parser's error type, declared so that it can ride through the
/// library's own error type.
pub struct ExFullMoonError(full_moon::Error);

/// Relies on `full_moon::parse` and the `Display` of its statement nodes:
/// whether a text parses, and which exported type declarations it has,
/// are functions of the text alone.
#[verifier::external_body]
pub fn get_file_types(file: &str) -> (r: Result<Vec<String>, Vec<full_moon::Error>>)
    ensures
        r is Ok <==> luau_parses(file@),
        r matches Ok(t) ==> idents_view(t@) == exported_types_of(file@),
{
    let ast = match full_moon::parse(file) {
        Ok(ast) => ast,
        Err(errors) => {
            return Err(errors);
        },
    };
    let types = ast
        .nodes()
        .stmts()
        .filter_map(|stmt| match stmt {
            full_moon::ast::Stmt::ExportedTypeDeclaration(decl) => Some(decl.to_string()),
            _ => None,
        })
        .collect();
    Ok(types)
}

// ---------------------------------------------------------------------------
// Require paths
// ---------------------------------------------------------------------------

/// The require path from the directory `base` to the library file
/// `lib_file` inside `container`. Resolving it against `base` lands
/// exactly on that file (the shims' require paths are correct by
/// construction).
pub fn get_lib_require_path(
    base: &Vec<String>,
    container: &Vec<String>,
    lib_file: &Vec<String>,
) -> (r: Vec<String>)
    ensures
        segs_view(r@) == spec_relativize(segs_view(base@),
            segs_view(container@) + segs_view(lib_file@)),
        valid_abs_path(segs_view(container@) + segs_view(lib_file@))
            ==> spec_resolve(segs_view(base@), segs_view(r@))
                == Some(segs_view(container@) + segs_view(lib_file@)),
{
    let mut target: Vec<String> = Vec::new();
    let mut i: usize = 0;
    while i < container.len()
        invariant
            i <= container@.len(),
            target@.len() == i,
            forall|j: int| 0 <= j < i ==> (#[trigger] target@[j])@ == container@[j]@,
        decreases container@.len() - i,
    {
        target.push(container[i].clone());
        i += 1;
    }
    let mut i: usize = 0;
    while i < lib_file.len()
        invariant
            i <= lib_file@.len(),
            target@.len() == container@.len() + i,
            forall|j: int| 0 <= j < container@.len()
                ==> (#[trigger] target@[j])@ == container@[j]@,
            forall|j: int| container@.len() <= j < target@.len()
                ==> (#[trigger] target@[j])@ == lib_file@[j - container@.len()]@,
        decreases lib_file@.len() - i,
    {
        target.push(lib_file[i].clone());
        i += 1;
    }
    proof {
        assert forall|j: int| 0 <= j < target@.len()
            implies segs_view(target@)[j]
                == (segs_view(container@) + segs_view(lib_file@))[j] by {
            assert(segs_view(target@)[j] == target@[j]@);
            if j < container@.len() {
                assert((segs_view(container@) + segs_view(lib_file@))[j] == container@[j]@);
            } else {
                assert((segs_view(container@) + segs_view(lib_file@))[j]
                    == lib_file@[j - container@.len()]@);
            }
        }
        assert(segs_view(target@) =~~= segs_view(container@) + segs_view(lib_file@));
    }
    let r = relativize(base, &target);
    proof {
        if valid_abs_path(segs_view(container@) + segs_view(lib_file@)) {
            lemma_relativize_resolve(segs_view(base@), segs_view(target@));
        }
    }
    r
}

/// The require path from the directory `base` to the binary file
/// `bin_file` inside `container`; correct by construction like the
/// library one.
pub fn get_bin_require_path(
    base: &Vec<String>,
    container: &Vec<String>,
    bin_file: &Vec<String>,
) -> (r: Vec<String>)
    ensures
        segs_view(r@) == spec_relativize(segs_view(base@),
            segs_view(container@) + segs_view(bin_file@)),
        valid_abs_path(segs_view(container@) + segs_view(bin_file@))
            ==> spec_resolve(segs_view(base@), segs_view(r@))
                == Some(segs_view(container@) + segs_view(bin_file@)),
{
    get_lib_require_path(base, container, bin_file)
}

// ---------------------------------------------------------------------------
// Shim module texts
// ---------------------------------------------------------------------------

/// Exported type declarations, one per line.
pub open spec fn spec_type_lines(types: Seq<Seq<char>>) -> Seq<char>
    decreases types.len(),
{
    if types.len() == 0 {
        Seq::empty()
    } else {
        types[0] + seq!['\n'] + spec_type_lines(types.skip(1))
    }
}

/// Emitting type lines splits off the last line.
proof fn lemma_type_lines_last(types: Seq<Seq<char>>)
    requires
        types.len() >= 1,
    ensures
        spec_type_lines(types) == spec_type_lines(types.take(types.len() - 1))
            + types.last() + seq!['\n'],
    decreases types.len(),
{
    if types.len() == 1 {
        assert(types.take(0) =~~= Seq::<Seq<char>>::empty());
        assert(types.skip(1).len() == 0);
        assert(spec_type_lines(types.skip(1)) == Seq::<char>::empty());
        assert(spec_type_lines(types) =~= types[0] + seq!['\n']);
    } else {
        lemma_type_lines_last(types.skip(1));
        assert(types.skip(1).take(types.len() - 2) =~~= types.take(types.len() - 1).skip(1));
        assert(types.take(types.len() - 1)[0] == types[0]);
        assert(types.skip(1).last() == types.last());
        assert(spec_type_lines(types.take(types.len() - 1))
            == types[0] + seq!['\n'] + spec_type_lines(types.take(types.len() - 1).skip(1)));
        assert(spec_type_lines(types)
            =~= spec_type_lines(types.take(types.len() - 1)) + types.last() + seq!['\n']);
    }
}

/// The text of a library shim: it re-exports the module behind the require
/// path and repeats the library's exported type declarations so that they
/// survive the indirection.
pub open spec fn spec_lib_shim(path: Seq<char>, types: Seq<Seq<char>>) -> Seq<char> {
    "local module = require(\""@ + path + "\")\n"@ + spec_type_lines(types)
        + "return module\n"@
}

/// Generates a library shim module.
pub fn generate_lib_linking_module(path: &str, types: &Vec<String>) -> (r: String)
    ensures
        r@ == spec_lib_shim(path@, idents_view(types@)),
{
    let ghost tl = idents_view(types@);
    let mut out = String::from_str("local module = require(\"");
    out.append(path);
    out.append("\")\n");
    let ghost head = out@;
    let mut i: usize = 0;
    while i < types.len()
        invariant
            tl == idents_view(types@),
            tl.len() == types@.len(),
            i <= types@.len(),
            out@ == head + spec_type_lines(tl.take(i as int)),
            head == "local module = require(\""@ + path@ + "\")\n"@,
        decreases types@.len() - i,
    {
        out.append(types[i].as_str());
        out.append("\n");
        proof {
            reveal_strlit("\n");
            if i == 0 {
                assert(tl.take(1) =~~= seq![tl[0]]);
                assert(tl.take(1).skip(1).len() == 0);
                assert(spec_type_lines(tl.take(1).skip(1)) == Seq::<char>::empty());
                assert(spec_type_lines(tl.take(1)) =~= tl.take(1)[0] + seq!['\n']);
                assert(tl[0] == types@[0]@);
                assert(out@ =~= head + spec_type_lines(tl.take(1)));
            } else {
                lemma_type_lines_last(tl.take(i as int + 1));
                assert(tl.take(i as int + 1).take(i as int) =~~= tl.take(i as int));
                assert(tl.take(i as int + 1).last() == tl[i as int]);
                assert(tl[i as int] == types@[i as int]@);
                assert(out@ =~= head + spec_type_lines(tl.take(i as int + 1)));
            }
        }
        i += 1;
    }
    out.append("return module\n");
    proof {
        assert(tl.take(tl.len() as int) =~~= tl);
        assert(out@ =~= spec_lib_shim(path@, tl));
    }
    out
}

/// The text of a binary shim: it records the package's container as the
/// package root and hands control to the binary entry file.
pub open spec fn spec_bin_shim(container: Seq<char>, path: Seq<char>) -> Seq<char> {
    "_G.PESDE_ROOT = \""@ + container + "\"\nreturn require(\""@ + path + "\")\n"@
}

/// Generates a binary shim module.
pub fn generate_bin_linking_module(container: &str, path: &str) -> (r: String)
    ensures
        r@ == spec_bin_shim(container@, path@),
{
    let mut out = String::from_str("_G.PESDE_ROOT = \"");
    out.append(container);
    out.append("\"\nreturn require(\"");
    out.append(path);
    out.append("\")\n");
    proof {
        assert(out@ =~= spec_bin_shim(container@, path@));
    }
    out
}

// ---------------------------------------------------------------------------
// The top-level launcher
// ---------------------------------------------------------------------------

/// The text of the top-level launcher for binary `alias`: a script that
/// walks up from the working directory to the nearest manifest and probes
/// every known packages folder for the alias's binary shim.
pub open spec fn spec_bin_link_file(alias: Seq<char>) -> Seq<char> {
    bin_link_head() + alias + bin_link_mid() + alias + bin_link_tail()
}

/// The launcher text before the first alias occurrence.
pub open spec fn bin_link_head() -> Seq<char> {
    "#!/usr/bin/env -S lune run\n"@
        + "local process = require(\"@lune/process\")\n"@
        + "local fs = require(\"@lune/fs\")\n"@
        + "local stdio = require(\"@lune/stdio\")\n\n"@
        + "local project_root = process.cwd\n"@
        + "local path_components = string.split(string.gsub(project_root, \"\\\\\", \"/\"), \"/\")\n\n"@
        + "for i = #path_components, 1, -1 do\n"@
        + "    local path = table.concat(path_components, \"/\", 1, i)\n"@
        + "    if fs.isFile(path .. \"/pesde.toml\") t"@ + "hen\n"@
        + "        project_root = path\n        break\n    end\nend\n\n"@
        + "for _, packages_folder in { \"luau_packages\", \"lune_packages\", \"packages\", \"roblox_packages\", \"roblox_server_packages\" } do\n"@
        + "    local path = `{project_root}/{packages_folder}/"@
}

/// The launcher text between the two alias occurrences.
pub open spec fn bin_link_mid() -> Seq<char> {
    ".bin.luau`\n\n    if fs.isFile(path) t"@ + "hen\n"@
        + "        require(path)\n        return\n    end\nend\n\n"@
        + "stdio.ewrite(stdio.color(\"red\") .. \"binary `"@
}

/// The launcher text after the second alias occurrence.
pub open spec fn bin_link_tail() -> Seq<char> {
    "` not found. are you in the right directory?\" .. stdio.color(\"reset\") .. \"\\n\")\n"@
}

/// Generates the top-level launcher for binary `alias`. The probed folder
/// list enumerates every packages folder any target pair can produce, in
/// sorted order.
pub fn bin_link_file(alias: &str) -> (r: String)
    ensures
        r@ == spec_bin_link_file(alias@),
{
    let mut out = String::from_str("#!/usr/bin/env -S lune run\n");
    out.append("local process = require(\"@lune/process\")\n");
    out.append("local fs = require(\"@lune/fs\")\n");
    out.append("local stdio = require(\"@lune/stdio\")\n\n");
    out.append("local project_root = process.cwd\n");
    out.append("local path_components = string.split(string.gsub(project_root, \"\\\\\", \"/\"), \"/\")\n\n");
    out.append("for i = #path_components, 1, -1 do\n");
    out.append("    local path = table.concat(path_components, \"/\", 1, i)\n");
    out.append("    if fs.isFile(path .. \"/pesde.toml\") t");
    out.append("hen\n");
    out.append("        project_root = path\n        break\n    end\nend\n\n");
    out.append("for _, packages_folder in { \"luau_packages\", \"lune_packages\", \"packages\", \"roblox_packages\", \"roblox_server_packages\" } do\n");
    out.append("    local path = `{project_root}/{packages_folder}/");
    out.append(alias);
    out.append(".bin.luau`\n\n    if fs.isFile(path) t");
    out.append("hen\n");
    out.append("        require(path)\n        return\n    end\nend\n\n");
    out.append("stdio.ewrite(stdio.color(\"red\") .. \"binary `");
    out.append(alias);
    out.append("` not found. are you in the right directory?\" .. stdio.color(\"reset\") .. \"\\n\")\n");
    proof {
        assert(out@ =~= spec_bin_link_file(alias@));
    }
    out
}

/// The text of a scripts-folder stub: it requires the named script from
/// the per-user data directory.
pub open spec fn spec_script_contents(path: Seq<char>) -> Seq<char> {
    "local process = require(\"@lune/process\")\n"@
        + "local home_dir = process.env.HOME or process.env.userprofile\n\n"@
        + "require(home_dir .. \"/.pesde/scripts/"@ + path + "\")\n"@
}

/// Generates a scripts-folder stub that requires the named script from
/// the per-user data directory.
pub fn script_contents(path: &str) -> (r: String)
    ensures
        r@ == spec_script_contents(path@),
{
    let mut out = String::from_str("local process = require(\"@lune/process\")\n");
    out.append("local home_dir = process.env.HOME or process.env.userprofile\n\n");
    out.append("require(home_dir .. \"/.pesde/scripts/");
    out.append(path);
    out.append("\")\n");
    proof {
        assert(out@ =~= spec_script_contents(path@));
    }
    out
}

} // verus!

verus! {

/// One planned shim: where it goes (segments relative to the project
/// root) and what it holds.
pub struct ShimFile {
    /// The file's path segments.
    pub path: Vec<String>,
    /// The file's text.
    pub contents: String,
}

/// The container segments of a package under a packages folder:
/// `<pf>/.pesde/<scope+name>/<version>/<name>`.
pub open spec fn spec_container_segs(
    pf: Seq<char>,
    name: PackageNames,
    v: VersionId,
) -> Seq<Seq<char>> {
    seq![pf, ".pesde"@, name.spec_escaped(), spec_render_version(v.version), name.view_v().1]
}

/// Whether a downloaded node gets a library shim of its own: it is a
/// direct dependency and exports a library.
pub open spec fn qualifies_direct_lib(e: DownloadedEntry) -> bool {
    e.node.node.direct is Some && e.node.target.lib_path is Some
}

/// The path and contents of the library shim of a qualifying direct node,
/// given the text of its library file.
pub open spec fn spec_direct_lib_shim(
    project_target: TargetKind,
    e: DownloadedEntry,
    src: Seq<char>,
) -> (Seq<Seq<char>>, Seq<char>) {
    let pf = spec_packages_folder(project_target, e.version.target);
    let container = spec_container_segs(pf, e.name, e.version);
    let libsegs = segs_view((e.node.target.lib_path->0)@);
    let rel = spec_relativize(seq![pf], container + libsegs);
    (
        seq![pf, (e.node.node.direct->0).0@ + ".luau"@],
        spec_lib_shim(spec_render_rel(rel), exported_types_of(src)),
    )
}

/// Whether `sources` holds the library text of the node at `key`.
pub open spec fn has_source(
    sources: Seq<(PackageNames, VersionId, String)>,
    e: DownloadedEntry,
) -> bool {
    exists|k: int| 0 <= k < sources.len()
        && ((#[trigger] sources[k]).0.view_v(), vid_key(sources[k].1))
            == (e.name.view_v(), vid_key(e.version))
}

/// Builds the container segments of one entry under its packages folder.
pub fn container_segs(project_target: TargetKind, name: &PackageNames, v: &VersionId)
    -> (r: Vec<String>)
    ensures
        segs_view(r@) == spec_container_segs(
            spec_packages_folder(project_target, v.target), *name, *v),
{
    let pf = project_target.packages_folder(&v.target);
    let mut out: Vec<String> = Vec::new();
    out.push(pf);
    out.push(String::from_str(crate::packages_container_name()));
    out.push(name.escaped());
    out.push(v.version.render());
    let (_, name_part) = name.as_str();
    out.push(String::from_str(name_part));
    proof {
        reveal_strlit(".pesde");
        assert(segs_view(out@) =~~= spec_container_segs(
            spec_packages_folder(project_target, v.target), *name, *v));
    }
    out
}

/// Finds the library text supplied for one entry.
fn find_source<'a>(
    sources: &'a Vec<(PackageNames, VersionId, String)>,
    name: &PackageNames,
    v: &VersionId,
) -> (r: Option<&'a String>)
    ensures
        r matches Some(s) ==> exists|k: int| 0 <= k < sources@.len()
            && ((#[trigger] sources@[k]).0.view_v(), vid_key(sources@[k].1))
                == (name.view_v(), vid_key(*v))
            && s@ == sources@[k].2@,
        r is None ==> forall|k: int| 0 <= k < sources@.len()
            ==> ((#[trigger] sources@[k]).0.view_v(), vid_key(sources@[k].1))
                != (name.view_v(), vid_key(*v)),
    {
    let mut k: usize = 0;
    while k < sources.len()
        invariant
            k <= sources@.len(),
            forall|j: int| 0 <= j < k
                ==> ((#[trigger] sources@[j]).0.view_v(), vid_key(sources@[j].1))
                    != (name.view_v(), vid_key(*v)),
        decreases sources@.len() - k,
    {
        let e = &sources[k];
        if e.0 == *name && e.1.eq_id(v) {
            return Some(&e.2);
        }
        k += 1;
    }
    None
}

/// Whether `plan` holds the library shim of the qualifying direct node
/// `e`, built from one of the supplied library texts.
pub open spec fn shim_planned(
    pt: TargetKind,
    e: DownloadedEntry,
    plan: Seq<ShimFile>,
    sources: Seq<(PackageNames, VersionId, String)>,
) -> bool {
    exists|j: int, k: int| {
        &&& 0 <= j < plan.len()
        &&& 0 <= k < sources.len()
        &&& ((#[trigger] sources[k]).0.view_v(), vid_key(sources[k].1))
            == (e.name.view_v(), vid_key(e.version))
        &&& (segs_view((#[trigger] plan[j]).path@), plan[j].contents@)
            == spec_direct_lib_shim(pt, e, sources[k].2@)
    }
}

/// Whether a downloaded node gets a binary trampoline of its own: it is a
/// direct dependency and exports a binary.
pub open spec fn qualifies_direct_bin(e: DownloadedEntry) -> bool {
    e.node.node.direct is Some && e.node.target.bin_path is Some
}

/// The path and contents of the binary trampoline of a qualifying direct
/// node.
pub open spec fn spec_direct_bin_shim(pt: TargetKind, e: DownloadedEntry)
    -> (Seq<Seq<char>>, Seq<char>) {
    let pf = spec_packages_folder(pt, e.version.target);
    let container = spec_container_segs(pf, e.name, e.version);
    let binsegs = segs_view((e.node.target.bin_path->0)@);
    let rel = spec_relativize(seq![pf], container + binsegs);
    (
        seq![pf, (e.node.node.direct->0).0@ + ".bin.luau"@],
        spec_bin_shim(crate::version::spec_join(container, '/'), spec_render_rel(rel)),
    )
}

/// Whether `plan` holds the binary trampoline of the qualifying node `e`.
pub open spec fn bin_planned(pt: TargetKind, e: DownloadedEntry, plan: Seq<ShimFile>) -> bool {
    exists|j: int| 0 <= j < plan.len()
        && (segs_view((#[trigger] plan[j]).path@), plan[j].contents@)
            == spec_direct_bin_shim(pt, e)
}

/// The folder a node's transitive linkage shims go into, relative to its
/// container: the packages folder of the dependency's target under the
/// node's own target for the current layout, the container's parent for
/// the legacy one.
pub open spec fn linkage_folder_name(e: DownloadedEntry, dep: DownloadedEntry) -> Seq<char> {
    if e.node.node.pkg_ref.spec_use_new_structure() {
        spec_packages_folder(e.version.target, dep.node.target.kind)
    } else {
        ".."@
    }
}

/// The path and contents of the linkage shim that lets node `e` require
/// its dependency `dep` under `alias`, given the dependency's library
/// text.
pub open spec fn spec_linkage_shim(
    pt: TargetKind,
    e: DownloadedEntry,
    dep: DownloadedEntry,
    alias: Seq<char>,
    src: Seq<char>,
) -> (Seq<Seq<char>>, Seq<char>) {
    let container = spec_container_segs(spec_packages_folder(pt, e.version.target), e.name,
        e.version);
    let lf = container + seq![linkage_folder_name(e, dep)];
    let dep_container = spec_container_segs(
        spec_packages_folder(e.version.target, dep.version.target), dep.name, dep.version);
    let libsegs = segs_view((dep.node.target.lib_path->0)@);
    let rel = spec_relativize(lf, dep_container + libsegs);
    (lf + seq![alias + ".luau"@], spec_lib_shim(spec_render_rel(rel), exported_types_of(src)))
}

/// Whether `plan` holds the linkage shim from `e` to `dep` under `alias`.
pub open spec fn linkage_planned(
    pt: TargetKind,
    e: DownloadedEntry,
    dep: DownloadedEntry,
    alias: Seq<char>,
    plan: Seq<ShimFile>,
    sources: Seq<(PackageNames, VersionId, String)>,
) -> bool {
    exists|j: int, k: int| {
        &&& 0 <= j < plan.len()
        &&& 0 <= k < sources.len()
        &&& ((#[trigger] sources[k]).0.view_v(), vid_key(sources[k].1))
            == (dep.name.view_v(), vid_key(dep.version))
        &&& (segs_view((#[trigger] plan[j]).path@), plan[j].contents@)
            == spec_linkage_shim(pt, e, dep, alias, sources[k].2@)
    }
}

/// A planned shim stays planned when the plan grows at the end.
proof fn lemma_shim_planned_mono(
    pt: TargetKind,
    e: DownloadedEntry,
    plan0: Seq<ShimFile>,
    plan1: Seq<ShimFile>,
    sources: Seq<(PackageNames, VersionId, String)>,
)
    requires
        shim_planned(pt, e, plan0, sources),
        plan0.len() <= plan1.len(),
        forall|j: int| 0 <= j < plan0.len() ==> plan1[j] == plan0[j],
    ensures
        shim_planned(pt, e, plan1, sources),
{
    let (j, k) = choose|j: int, k: int| {
        &&& 0 <= j < plan0.len()
        &&& 0 <= k < sources.len()
        &&& ((#[trigger] sources[k]).0.view_v(), vid_key(sources[k].1))
            == (e.name.view_v(), vid_key(e.version))
        &&& (segs_view((#[trigger] plan0[j]).path@), plan0[j].contents@)
            == spec_direct_lib_shim(pt, e, sources[k].2@)
    };
    assert(plan1[j] == plan0[j]);
    assert((segs_view(plan1[j].path@), plan1[j].contents@)
        == spec_direct_lib_shim(pt, e, sources[k].2@));
}

/// A planned trampoline stays planned when the plan grows at the end.
proof fn lemma_bin_planned_mono(
    pt: TargetKind,
    e: DownloadedEntry,
    plan0: Seq<ShimFile>,
    plan1: Seq<ShimFile>,
)
    requires
        bin_planned(pt, e, plan0),
        plan0.len() <= plan1.len(),
        forall|j: int| 0 <= j < plan0.len() ==> plan1[j] == plan0[j],
    ensures
        bin_planned(pt, e, plan1),
{
    let j = choose|j: int| 0 <= j < plan0.len()
        && (segs_view((#[trigger] plan0[j]).path@), plan0[j].contents@)
            == spec_direct_bin_shim(pt, e);
    assert(plan1[j] == plan0[j]);
    assert((segs_view(plan1[j].path@), plan1[j].contents@) == spec_direct_bin_shim(pt, e));
}

/// A planned linkage shim stays planned when the plan grows at the end.
proof fn lemma_linkage_planned_mono(
    pt: TargetKind,
    e: DownloadedEntry,
    dep: DownloadedEntry,
    alias: Seq<char>,
    plan0: Seq<ShimFile>,
    plan1: Seq<ShimFile>,
    sources: Seq<(PackageNames, VersionId, String)>,
)
    requires
        linkage_planned(pt, e, dep, alias, plan0, sources),
        plan0.len() <= plan1.len(),
        forall|j: int| 0 <= j < plan0.len() ==> plan1[j] == plan0[j],
    ensures
        linkage_planned(pt, e, dep, alias, plan1, sources),
{
    let (j, k) = choose|j: int, k: int| {
        &&& 0 <= j < plan0.len()
        &&& 0 <= k < sources.len()
        &&& ((#[trigger] sources[k]).0.view_v(), vid_key(sources[k].1))
            == (dep.name.view_v(), vid_key(dep.version))
        &&& (segs_view((#[trigger] plan0[j]).path@), plan0[j].contents@)
            == spec_linkage_shim(pt, e, dep, alias, sources[k].2@)
    };
    assert(plan1[j] == plan0[j]);
    assert((segs_view(plan1[j].path@), plan1[j].contents@)
        == spec_linkage_shim(pt, e, dep, alias, sources[k].2@));
}

/// Whether every recorded edge of the graph resolves to a graph node.
pub open spec fn graph_edges_resolve(g: DownloadedGraph) -> bool {
    forall|i: int, k: int| 0 <= i < g.nodes@.len()
        && 0 <= k < g.nodes@[i].node.node.dependencies@.len()
        ==> exists|ci: int| 0 <= ci < g.nodes@.len()
            && downloaded_key(g.nodes@[ci])
                == ((#[trigger] g.nodes@[i].node.node.dependencies@[k]).0.view_v(),
                    vid_key(g.nodes@[i].node.node.dependencies@[k].1.0))
}

/// Whether every node that needs its library text has one supplied: the
/// direct library nodes, and every dependency node that exports a library.
pub open spec fn sources_cover(
    g: DownloadedGraph,
    sources: Seq<(PackageNames, VersionId, String)>,
) -> bool {
    &&& forall|i: int| 0 <= i < g.nodes@.len() && qualifies_direct_lib(#[trigger] g.nodes@[i])
        ==> has_source(sources, g.nodes@[i])
    &&& forall|ci: int| 0 <= ci < g.nodes@.len()
        && (#[trigger] g.nodes@[ci]).node.target.lib_path is Some
        && (exists|i: int, k: int| 0 <= i < g.nodes@.len()
            && 0 <= k < g.nodes@[i].node.node.dependencies@.len()
            && downloaded_key(g.nodes@[ci])
                == ((#[trigger] g.nodes@[i].node.node.dependencies@[k]).0.view_v(),
                    vid_key(g.nodes@[i].node.node.dependencies@[k].1.0)))
        ==> has_source(sources, g.nodes@[ci])
}

/// Plans the shims of a downloaded graph. `lib_sources` carries the text
/// of each package's library file, keyed by name and version id, as read
/// from the containers on disk. On success: every direct dependency with
/// a library gets its library shim, every direct dependency with a binary
/// gets its `<alias>.bin.luau` trampoline, and every recorded edge whose
/// dependency exports a library gets its linkage shim next to the node's
/// container - each with an exact path and text. Success is owed whenever
/// every edge resolves, every needed library text is supplied, and every
/// supplied text parses; each error names what was missing.
#[verifier::rlimit(100)]
pub fn link_plan(
    graph: &DownloadedGraph,
    project_target: TargetKind,
    lib_sources: &Vec<(PackageNames, VersionId, String)>,
) -> (r: Result<Vec<ShimFile>, LinkingError>)
    requires
        graph.wf(),
    ensures
        r matches Ok(plan) ==> {
            &&& forall|i: int| 0 <= i < graph.nodes@.len()
                && qualifies_direct_lib(#[trigger] graph.nodes@[i])
                ==> shim_planned(project_target, graph.nodes@[i], plan@, lib_sources@)
            &&& forall|i: int| 0 <= i < graph.nodes@.len()
                && qualifies_direct_bin(#[trigger] graph.nodes@[i])
                ==> bin_planned(project_target, graph.nodes@[i], plan@)
            &&& forall|i: int, k: int, ci: int| 0 <= i < graph.nodes@.len()
                && 0 <= k < graph.nodes@[i].node.node.dependencies@.len()
                && 0 <= ci < graph.nodes@.len()
                && downloaded_key(graph.nodes@[ci])
                    == ((#[trigger] graph.nodes@[i].node.node.dependencies@[k]).0.view_v(),
                        vid_key(graph.nodes@[i].node.node.dependencies@[k].1.0))
                && (#[trigger] graph.nodes@[ci]).node.target.lib_path is Some
                ==> linkage_planned(project_target, graph.nodes@[i], graph.nodes@[ci],
                    graph.nodes@[i].node.node.dependencies@[k].1.1@, plan@, lib_sources@)
        },
        graph_edges_resolve(*graph) && sources_cover(*graph, lib_sources@)
            && (forall|ks: int| 0 <= ks < lib_sources@.len()
                ==> luau_parses((#[trigger] lib_sources@[ks]).2@))
            ==> r is Ok,
        r matches Err(LinkingError::DependencyNotFound(n, v)) ==> !graph_edges_resolve(*graph),
        r matches Err(LinkingError::LibFileNotFound(p)) ==> !sources_cover(*graph, lib_sources@),
        r matches Err(LinkingError::FullMoon(p, errs)) ==> exists|ks: int|
            0 <= ks < lib_sources@.len() && !luau_parses((#[trigger] lib_sources@[ks]).2@),
{
    let mut plan: Vec<ShimFile> = Vec::new();
    let mut i: usize = 0;
    while i < graph.nodes.len()
        invariant
            graph.wf(),
            i <= graph.nodes@.len(),
            forall|a: int| 0 <= a < i && qualifies_direct_lib(#[trigger] graph.nodes@[a])
                ==> shim_planned(project_target, graph.nodes@[a], plan@, lib_sources@),
            forall|a: int| 0 <= a < i && qualifies_direct_bin(#[trigger] graph.nodes@[a])
                ==> bin_planned(project_target, graph.nodes@[a], plan@),
            forall|a: int, k: int, ci: int| 0 <= a < i
                && 0 <= k < graph.nodes@[a].node.node.dependencies@.len()
                && 0 <= ci < graph.nodes@.len()
                && downloaded_key(graph.nodes@[ci])
                    == ((#[trigger] graph.nodes@[a].node.node.dependencies@[k]).0.view_v(),
                        vid_key(graph.nodes@[a].node.node.dependencies@[k].1.0))
                && (#[trigger] graph.nodes@[ci]).node.target.lib_path is Some
                ==> linkage_planned(project_target, graph.nodes@[a], graph.nodes@[ci],
                    graph.nodes@[a].node.node.dependencies@[k].1.1@, plan@, lib_sources@),
        decreases graph.nodes@.len() - i,
    {
        let ghost plan_in = plan@;
        let e = &graph.nodes[i];
        let ghost ev = graph.nodes@[i as int];
        let pf = project_target.packages_folder(&e.version.target);
        let container = container_segs(project_target, &e.name, &e.version);
        if let Some((alias, _, _)) = &e.node.node.direct {
            if let Some(lib) = &e.node.target.lib_path {
                let src = match find_source(lib_sources, &e.name, &e.version) {
                    Some(s) => s,
                    None => {
                        let joined = crate::paths::join_segments(&container);
                        proof {
                            assert(qualifies_direct_lib(ev));
                            assert(!has_source(lib_sources@, ev));
                        }
                        return Err(LinkingError::LibFileNotFound(joined));
                    },
                };
                let types = match get_file_types(src.as_str()) {
                    Ok(t) => t,
                    Err(errs) => {
                        let joined = crate::paths::join_segments(&container);
                        proof {
                            let k = choose|k: int| 0 <= k < lib_sources@.len()
                                && ((#[trigger] lib_sources@[k]).0.view_v(),
                                    vid_key(lib_sources@[k].1))
                                    == (ev.name.view_v(), vid_key(ev.version))
                                && src@ == lib_sources@[k].2@;
                            assert(!luau_parses(lib_sources@[k].2@));
                        }
                        return Err(LinkingError::FullMoon(joined, errs));
                    },
                };
                let mut base: Vec<String> = Vec::new();
                base.push(pf.clone());
                proof {
                    assert(segs_view(base@) =~~= seq![spec_packages_folder(project_target,
                        ev.version.target)]);
                }
                let rel = get_lib_require_path(&base, &container, lib);
                let rendered = render_rel(&rel);
                let contents = generate_lib_linking_module(rendered.as_str(), &types);
                let mut path: Vec<String> = Vec::new();
                path.push(pf.clone());
                let mut shim_name = alias.clone();
                shim_name.append(".luau");
                path.push(shim_name);
                let ghost jw = plan@.len() as int;
                let ghost kw = choose|k: int| 0 <= k < lib_sources@.len()
                    && ((#[trigger] lib_sources@[k]).0.view_v(), vid_key(lib_sources@[k].1))
                        == (ev.name.view_v(), vid_key(ev.version))
                    && src@ == lib_sources@[k].2@;
                proof {
                    reveal_strlit(".luau");
                    assert(segs_view(path@) =~~= seq![spec_packages_folder(project_target,
                        ev.version.target), (ev.node.node.direct->0).0@ + ".luau"@]);
                    assert(contents@ == spec_direct_lib_shim(project_target, ev,
                        lib_sources@[kw].2@).1);
                }
                plan.push(ShimFile { path, contents });
                proof {
                    assert((segs_view(plan@[jw].path@), plan@[jw].contents@)
                        == spec_direct_lib_shim(project_target, ev, lib_sources@[kw].2@));
                    assert(shim_planned(project_target, ev, plan@, lib_sources@));
                }
            }
            if let Some(bin) = &e.node.target.bin_path {
                let ghost plan1 = plan@;
                let mut base: Vec<String> = Vec::new();
                base.push(pf.clone());
                proof {
                    assert(segs_view(base@) =~~= seq![spec_packages_folder(project_target,
                        ev.version.target)]);
                }
                let rel = get_bin_require_path(&base, &container, bin);
                let rendered = render_rel(&rel);
                let joined = crate::paths::join_segments(&container);
                let contents = generate_bin_linking_module(joined.as_str(), rendered.as_str());
                let mut path: Vec<String> = Vec::new();
                path.push(pf.clone());
                let mut shim_name = alias.clone();
                shim_name.append(".bin.luau");
                path.push(shim_name);
                let ghost jw = plan@.len() as int;
                proof {
                    reveal_strlit(".bin.luau");
                    assert(segs_view(path@) =~~= seq![spec_packages_folder(project_target,
                        ev.version.target), (ev.node.node.direct->0).0@ + ".bin.luau"@]);
                    assert(contents@ == spec_direct_bin_shim(project_target, ev).1);
                }
                plan.push(ShimFile { path, contents });
                proof {
                    assert((segs_view(plan@[jw].path@), plan@[jw].contents@)
                        == spec_direct_bin_shim(project_target, ev));
                    assert(bin_planned(project_target, ev, plan@));
                    if qualifies_direct_lib(ev) {
                        lemma_shim_planned_mono(project_target, ev, plan1, plan@, lib_sources@);
                    }
                }
            }
        }
        proof {
            assert forall|a: int| 0 <= a < i && qualifies_direct_lib(#[trigger] graph.nodes@[a])
                implies shim_planned(project_target, graph.nodes@[a], plan@, lib_sources@) by {
                lemma_shim_planned_mono(project_target, graph.nodes@[a], plan_in, plan@,
                    lib_sources@);
            }
            assert forall|a: int| 0 <= a < i && qualifies_direct_bin(#[trigger] graph.nodes@[a])
                implies bin_planned(project_target, graph.nodes@[a], plan@) by {
                lemma_bin_planned_mono(project_target, graph.nodes@[a], plan_in, plan@);
            }
            assert forall|a: int, k: int, ci: int| 0 <= a < i
                && 0 <= k < graph.nodes@[a].node.node.dependencies@.len()
                && 0 <= ci < graph.nodes@.len()
                && downloaded_key(graph.nodes@[ci])
                    == ((#[trigger] graph.nodes@[a].node.node.dependencies@[k]).0.view_v(),
                        vid_key(graph.nodes@[a].node.node.dependencies@[k].1.0))
                && (#[trigger] graph.nodes@[ci]).node.target.lib_path is Some
                implies linkage_planned(project_target, graph.nodes@[a], graph.nodes@[ci],
                    graph.nodes@[a].node.node.dependencies@[k].1.1@, plan@, lib_sources@) by {
                lemma_linkage_planned_mono(project_target, graph.nodes@[a], graph.nodes@[ci],
                    graph.nodes@[a].node.node.dependencies@[k].1.1@, plan_in, plan@,
                    lib_sources@);
            }
        }
        // Linkage shims for the node's own dependencies.
        let ghost plan_mid = plan@;
        let mut d: usize = 0;
        while d < e.node.node.dependencies.len()
            invariant
                graph.wf(),
                e == &graph.nodes@[i as int],
                ev == graph.nodes@[i as int],
                i < graph.nodes@.len(),
                d <= e.node.node.dependencies@.len(),
                segs_view(container@) == spec_container_segs(
                    spec_packages_folder(project_target, ev.version.target), ev.name,
                    ev.version),
                forall|a: int| 0 <= a < i + 1
                    && qualifies_direct_lib(#[trigger] graph.nodes@[a])
                    ==> shim_planned(project_target, graph.nodes@[a], plan@, lib_sources@),
                forall|a: int| 0 <= a < i + 1
                    && qualifies_direct_bin(#[trigger] graph.nodes@[a])
                    ==> bin_planned(project_target, graph.nodes@[a], plan@),
                forall|a: int, k: int, ci: int| 0 <= a < i
                    && 0 <= k < graph.nodes@[a].node.node.dependencies@.len()
                    && 0 <= ci < graph.nodes@.len()
                    && downloaded_key(graph.nodes@[ci])
                        == ((#[trigger] graph.nodes@[a].node.node.dependencies@[k]).0.view_v(),
                            vid_key(graph.nodes@[a].node.node.dependencies@[k].1.0))
                    && (#[trigger] graph.nodes@[ci]).node.target.lib_path is Some
                    ==> linkage_planned(project_target, graph.nodes@[a], graph.nodes@[ci],
                        graph.nodes@[a].node.node.dependencies@[k].1.1@, plan@, lib_sources@),
                forall|k: int, ci: int| 0 <= k < d
                    && 0 <= ci < graph.nodes@.len()
                    && downloaded_key(graph.nodes@[ci])
                        == ((#[trigger] graph.nodes@[i as int].node.node.dependencies@[k])
                            .0.view_v(),
                            vid_key(graph.nodes@[i as int].node.node.dependencies@[k].1.0))
                    && (#[trigger] graph.nodes@[ci]).node.target.lib_path is Some
                    ==> linkage_planned(project_target, graph.nodes@[i as int],
                        graph.nodes@[ci],
                        graph.nodes@[i as int].node.node.dependencies@[k].1.1@, plan@,
                        lib_sources@),
            decreases e.node.node.dependencies@.len() - d,
        {
            let ghost plan1 = plan@;
            let (dn, (dv, dalias)) = &e.node.node.dependencies[d];
            let di = match graph.find(dn, dv) {
                Some(di) => di,
                None => {
                    proof {
                        assert(!graph_edges_resolve(*graph)) by {
                            if graph_edges_resolve(*graph) {
                                let ci = choose|ci: int| 0 <= ci < graph.nodes@.len()
                                    && downloaded_key(graph.nodes@[ci])
                                        == ((graph.nodes@[i as int].node.node
                                            .dependencies@[d as int]).0.view_v(),
                                            vid_key(graph.nodes@[i as int].node.node
                                                .dependencies@[d as int].1.0));
                                assert(downloaded_key(graph.nodes@[ci])
                                    != (dn.view_v(), vid_key(*dv)));
                            }
                        }
                    }
                    return Err(LinkingError::DependencyNotFound(dn.render(), dv.render()));
                },
            };
            let dep = &graph.nodes[di];
            let ghost depv = graph.nodes@[di as int];
            if let Some(dlib) = &dep.node.target.lib_path {
                let src = match find_source(lib_sources, &dep.name, &dep.version) {
                    Some(s) => s,
                    None => {
                        let c = container_segs(e.version.target, &dep.name, &dep.version);
                        let joined = crate::paths::join_segments(&c);
                        proof {
                            assert(depv.node.target.lib_path is Some);
                            assert(downloaded_key(depv)
                                == ((graph.nodes@[i as int].node.node.dependencies@[d as int])
                                    .0.view_v(),
                                    vid_key(graph.nodes@[i as int].node.node
                                        .dependencies@[d as int].1.0)));
                            assert(!has_source(lib_sources@, depv));
                        }
                        return Err(LinkingError::LibFileNotFound(joined));
                    },
                };
                let types = match get_file_types(src.as_str()) {
                    Ok(t) => t,
                    Err(errs) => {
                        let c = container_segs(e.version.target, &dep.name, &dep.version);
                        let joined = crate::paths::join_segments(&c);
                        proof {
                            let k = choose|k: int| 0 <= k < lib_sources@.len()
                                && ((#[trigger] lib_sources@[k]).0.view_v(),
                                    vid_key(lib_sources@[k].1))
                                    == (depv.name.view_v(), vid_key(depv.version))
                                && src@ == lib_sources@[k].2@;
                            assert(!luau_parses(lib_sources@[k].2@));
                        }
                        return Err(LinkingError::FullMoon(joined, errs));
                    },
                };
                let dep_container = container_segs(e.version.target, &dep.name, &dep.version);
                let mut linker_folder = crate::version::clone_idents(&container);
                let ghost lf0 = linker_folder@;
                linker_folder.push(e.node.node.base_folder(&e.version, dep.node.target.kind));
                proof {
                    assert(crate::version::idents_view(lf0).len() == lf0.len());
                    assert(crate::version::idents_view(container@).len() == container@.len());
                    assert forall|j: int| 0 <= j < container@.len()
                        implies linker_folder@[j]@ == container@[j]@ by {
                        assert(linker_folder@[j] == lf0[j]);
                        assert(crate::version::idents_view(lf0)[j] == lf0[j]@);
                        assert(crate::version::idents_view(container@)[j] == container@[j]@);
                    }
                    assert forall|j: int| 0 <= j < container@.len()
                        implies segs_view(linker_folder@)[j]
                            == spec_container_segs(spec_packages_folder(project_target,
                                ev.version.target), ev.name, ev.version)[j] by {
                        assert(segs_view(linker_folder@)[j] == linker_folder@[j]@);
                        assert(segs_view(container@)[j] == container@[j]@);
                    }
                    assert(segs_view(linker_folder@).len() == container@.len() + 1);
                    assert(segs_view(linker_folder@)[container@.len() as int]
                        == linker_folder@.last()@);
                    assert(linker_folder@.last()@ == linkage_folder_name(ev, depv));
                    assert(segs_view(linker_folder@) =~~= spec_container_segs(
                        spec_packages_folder(project_target, ev.version.target), ev.name,
                        ev.version) + seq![linkage_folder_name(ev, depv)]);
                }
                let rel = get_lib_require_path(&linker_folder, &dep_container, dlib);
                let rendered = render_rel(&rel);
                let contents = generate_lib_linking_module(rendered.as_str(), &types);
                let mut path = crate::version::clone_idents(&linker_folder);
                let mut shim_name = dalias.clone();
                shim_name.append(".luau");
                path.push(shim_name);
                let ghost jw = plan@.len() as int;
                let ghost kw = choose|k: int| 0 <= k < lib_sources@.len()
                    && ((#[trigger] lib_sources@[k]).0.view_v(), vid_key(lib_sources@[k].1))
                        == (depv.name.view_v(), vid_key(depv.version))
                    && src@ == lib_sources@[k].2@;
                proof {
                    reveal_strlit(".luau");
                    assert(segs_view(path@) =~~= spec_linkage_shim(project_target, ev, depv,
                        graph.nodes@[i as int].node.node.dependencies@[d as int].1.1@,
                        lib_sources@[kw].2@).0);
                    assert(contents@ == spec_linkage_shim(project_target, ev, depv,
                        graph.nodes@[i as int].node.node.dependencies@[d as int].1.1@,
                        lib_sources@[kw].2@).1);
                }
                plan.push(ShimFile { path, contents });
                proof {
                    assert((segs_view(plan@[jw].path@), plan@[jw].contents@)
                        == spec_linkage_shim(project_target, ev, depv,
                            graph.nodes@[i as int].node.node.dependencies@[d as int].1.1@,
                            lib_sources@[kw].2@));
                    assert(linkage_planned(project_target, ev, depv,
                        graph.nodes@[i as int].node.node.dependencies@[d as int].1.1@, plan@,
                        lib_sources@));
                    assert forall|a: int| 0 <= a < i + 1
                        && qualifies_direct_lib(#[trigger] graph.nodes@[a])
                        implies shim_planned(project_target, graph.nodes@[a], plan@,
                            lib_sources@) by {
                        lemma_shim_planned_mono(project_target, graph.nodes@[a], plan1, plan@,
                            lib_sources@);
                    }
                    assert forall|a: int| 0 <= a < i + 1
                        && qualifies_direct_bin(#[trigger] graph.nodes@[a])
                        implies bin_planned(project_target, graph.nodes@[a], plan@) by {
                        lemma_bin_planned_mono(project_target, graph.nodes@[a], plan1, plan@);
                    }
                    assert forall|a: int, k: int, ci: int| 0 <= a < i
                        && 0 <= k < graph.nodes@[a].node.node.dependencies@.len()
                        && 0 <= ci < graph.nodes@.len()
                        && downloaded_key(graph.nodes@[ci])
                            == ((#[trigger] graph.nodes@[a].node.node.dependencies@[k])
                                .0.view_v(),
                                vid_key(graph.nodes@[a].node.node.dependencies@[k].1.0))
                        && (#[trigger] graph.nodes@[ci]).node.target.lib_path is Some
                        implies linkage_planned(project_target, graph.nodes@[a],
                            graph.nodes@[ci],
                            graph.nodes@[a].node.node.dependencies@[k].1.1@, plan@,
                            lib_sources@) by {
                        lemma_linkage_planned_mono(project_target, graph.nodes@[a],
                            graph.nodes@[ci],
                            graph.nodes@[a].node.node.dependencies@[k].1.1@, plan1, plan@,
                            lib_sources@);
                    }
                    assert forall|k: int, ci: int| 0 <= k < d + 1
                        && 0 <= ci < graph.nodes@.len()
                        && downloaded_key(graph.nodes@[ci])
                            == ((#[trigger] graph.nodes@[i as int].node.node.dependencies@[k])
                                .0.view_v(),
                                vid_key(graph.nodes@[i as int].node.node.dependencies@[k].1.0))
                        && (#[trigger] graph.nodes@[ci]).node.target.lib_path is Some
                        implies linkage_planned(project_target, graph.nodes@[i as int],
                            graph.nodes@[ci],
                            graph.nodes@[i as int].node.node.dependencies@[k].1.1@, plan@,
                            lib_sources@) by {
                        if k < d {
                            lemma_linkage_planned_mono(project_target, graph.nodes@[i as int],
                                graph.nodes@[ci],
                                graph.nodes@[i as int].node.node.dependencies@[k].1.1@, plan1,
                                plan@, lib_sources@);
                        } else {
                            crate::graph::lemma_one_downloaded_per_key(*graph, ci, di as int);
                        }
                    }
                }
            } else {
                proof {
                    assert forall|k: int, ci: int| 0 <= k < d + 1
                        && 0 <= ci < graph.nodes@.len()
                        && downloaded_key(graph.nodes@[ci])
                            == ((#[trigger] graph.nodes@[i as int].node.node.dependencies@[k])
                                .0.view_v(),
                                vid_key(graph.nodes@[i as int].node.node.dependencies@[k].1.0))
                        && (#[trigger] graph.nodes@[ci]).node.target.lib_path is Some
                        implies linkage_planned(project_target, graph.nodes@[i as int],
                            graph.nodes@[ci],
                            graph.nodes@[i as int].node.node.dependencies@[k].1.1@, plan@,
                            lib_sources@) by {
                        if k == d {
                            crate::graph::lemma_one_downloaded_per_key(*graph, ci, di as int);
                            assert(graph.nodes@[ci].node.target.lib_path is None);
                        }
                    }
                }
            }
            d += 1;
        }
        i += 1;
    }
    Ok(plan)
}

/// One planned sync-config generation: the script to run (when the
/// manifest names one; the driver warns and skips otherwise), the
/// container to run it on, and the build files to hand it.
pub struct SyncConfigJob {
    /// The configured generator script's path, when the manifest has one.
    pub script: Option<String>,
    /// The container's path segments under the project root.
    pub container: Vec<String>,
    /// The build files, as the index published them.
    pub build_files: Vec<String>,
}

/// Whether a downloaded node needs a sync config generated: it publishes
/// build files and uses the current layout (wally-style packages bring
/// their own configuration).
pub open spec fn needs_sync_config(e: DownloadedEntry) -> bool {
    e.node.target.build_files@.len() > 0 && e.node.node.pkg_ref.spec_use_new_structure()
}

/// Whether `jobs` holds the sync-config job of node `e` with script
/// `script`.
pub open spec fn sync_job_planned(
    pt: TargetKind,
    e: DownloadedEntry,
    jobs: Seq<SyncConfigJob>,
    script: Option<Seq<char>>,
) -> bool {
    exists|j: int| 0 <= j < jobs.len() && {
        let job = #[trigger] jobs[j];
        &&& segs_view(job.container@) == spec_container_segs(
            spec_packages_folder(pt, e.version.target), e.name, e.version)
        &&& idents_view(job.build_files@) == idents_view(e.node.target.build_files@)
        &&& (match script {
            Some(sc) => job.script matches Some(x) && x@ == sc,
            None => job.script is None,
        })
    }
}

/// Plans the Roblox sync-config generations of a downloaded graph: one
/// job per node that publishes build files under the current layout. The
/// driver runs the script on each job's container, warns and skips when
/// no script is configured, and fails the run when the script fails.
pub fn sync_config_jobs(
    graph: &DownloadedGraph,
    project_target: TargetKind,
    script: Option<&String>,
) -> (r: Vec<SyncConfigJob>)
    ensures
        forall|i: int| 0 <= i < graph.nodes@.len()
            && needs_sync_config(#[trigger] graph.nodes@[i])
            ==> sync_job_planned(project_target, graph.nodes@[i], r@, match script {
                Some(sc) => Some(sc@),
                None => None,
            }),
{
    let ghost sv: Option<Seq<char>> = match script {
        Some(sc) => Some(sc@),
        None => None,
    };
    let mut jobs: Vec<SyncConfigJob> = Vec::new();
    let mut i: usize = 0;
    while i < graph.nodes.len()
        invariant
            i <= graph.nodes@.len(),
            sv == (match script {
                Some(sc) => Some(sc@),
                None => None::<Seq<char>>,
            }),
            forall|a: int| 0 <= a < i && needs_sync_config(#[trigger] graph.nodes@[a])
                ==> sync_job_planned(project_target, graph.nodes@[a], jobs@, sv),
        decreases graph.nodes@.len() - i,
    {
        let ghost jobs0 = jobs@;
        let e = &graph.nodes[i];
        if e.node.target.build_files.len() > 0 && e.node.node.pkg_ref.use_new_structure() {
            let container = container_segs(project_target, &e.name, &e.version);
            let job_script = match script {
                Some(sc) => Some(sc.clone()),
                None => None,
            };
            let build_files = crate::version::clone_idents(&e.node.target.build_files);
            let job = SyncConfigJob { script: job_script, container, build_files };
            jobs.push(job);
            proof {
                let jw = jobs@.len() - 1;
                assert(segs_view(jobs@[jw].container@) == spec_container_segs(
                    spec_packages_folder(project_target, graph.nodes@[i as int].version.target),
                    graph.nodes@[i as int].name, graph.nodes@[i as int].version));
                assert(idents_view(jobs@[jw].build_files@)
                    == idents_view(graph.nodes@[i as int].node.target.build_files@));
                assert(sync_job_planned(project_target, graph.nodes@[i as int], jobs@, sv));
            }
        }
        proof {
            assert forall|a: int| 0 <= a < i + 1
                && needs_sync_config(#[trigger] graph.nodes@[a])
                implies sync_job_planned(project_target, graph.nodes@[a], jobs@, sv) by {
                if a < i {
                    let j = choose|j: int| 0 <= j < jobs0.len() && {
                        let job = #[trigger] jobs0[j];
                        &&& segs_view(job.container@) == spec_container_segs(
                            spec_packages_folder(project_target,
                                graph.nodes@[a].version.target), graph.nodes@[a].name,
                            graph.nodes@[a].version)
                        &&& idents_view(job.build_files@)
                            == idents_view(graph.nodes@[a].node.target.build_files@)
                        &&& (match sv {
                            Some(sc) => job.script matches Some(x) && x@ == sc,
                            None => job.script is None,
                        })
                    };
                    assert(jobs@[j] == jobs0[j]);
                }
            }
        }
        i += 1;
    }
    jobs
}

} // verus!
