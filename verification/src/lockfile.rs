//! The lockfile: project identity, overrides, workspace map and the
//! downloaded graph, serialized with a stable field order. The parser
//! accepts exactly what the serializer writes, so re-serializing a parsed
//! lockfile reproduces its bytes.

use vstd::prelude::*;
use crate::graph::{DownloadedGraph, DownloadedEntry, DownloadedDependencyGraphNode,
    DependencyGraphNode};
use crate::manifest::{Manifest, OverrideKey};
use crate::names::{PackageName, PackageNames};
use crate::reqs::{VersionReq, spec_render_req};
use crate::source::{DependencySpecifiers, PesdeDependencySpecifier, DependencyType, PackageRefs,
    PesdePackageRef};
use crate::target::{TargetKind, spec_target_name};
use crate::version::{Version, VersionId, spec_render_version, split_on, idents_view};

verus! {

/// A lockfile: the project's identity and target, its overrides and
/// workspace map, and the pinned, downloaded graph.
#[derive(Debug)]
pub struct Lockfile {
    /// The project's package name.
    pub name: PackageName,
    /// The project's version.
    pub version: Version,
    /// The project's target kind.
    pub target: TargetKind,
    /// The manifest's overrides at resolution time.
    pub overrides: Vec<(OverrideKey, DependencySpecifiers)>,
    /// Workspace members: name to per-target relative path.
    pub workspace: Vec<(PackageName, Vec<(TargetKind, String)>)>,
    /// The downloaded graph.
    pub graph: DownloadedGraph,
}

// ---------------------------------------------------------------------------
// Small renders
// ---------------------------------------------------------------------------

/// The tag of a dependency type.
pub open spec fn spec_ty_name(t: DependencyType) -> Seq<char> {
    match t {
        DependencyType::Standard => "standard"@,
        DependencyType::Peer => "peer"@,
        DependencyType::Dev => "dev"@,
    }
}

/// Renders a dependency type tag.
pub fn ty_name(t: DependencyType) -> (r: &'static str)
    ensures
        r@ == spec_ty_name(t),
{
    match t {
        DependencyType::Standard => "standard",
        DependencyType::Peer => "peer",
        DependencyType::Dev => "dev",
    }
}

/// Parses a dependency type tag; accepts exactly the three tags.
pub fn parse_ty(s: &str) -> (r: Option<DependencyType>)
    ensures
        r matches Some(t) ==> s@ == spec_ty_name(t),
        forall|t: DependencyType| s@ == spec_ty_name(t) ==> r == Some(t),
{
    proof {
        reveal_strlit("standard");
        reveal_strlit("peer");
        reveal_strlit("dev");
        assert("standard"@.len() == 8 && "peer"@.len() == 4 && "dev"@.len() == 3);
        assert("standard"@ != "peer"@ && "standard"@ != "dev"@ && "peer"@ != "dev"@);
    }
    if crate::strutil::str_eq(s, "standard") {
        proof {
            assert forall|t: DependencyType| s@ == spec_ty_name(t)
                implies t == DependencyType::Standard by {
            }
        }
        Some(DependencyType::Standard)
    } else if crate::strutil::str_eq(s, "peer") {
        proof {
            assert forall|t: DependencyType| s@ == spec_ty_name(t)
                implies t == DependencyType::Peer by {
            }
        }
        Some(DependencyType::Peer)
    } else if crate::strutil::str_eq(s, "dev") {
        proof {
            assert forall|t: DependencyType| s@ == spec_ty_name(t)
                implies t == DependencyType::Dev by {
            }
        }
        Some(DependencyType::Dev)
    } else {
        proof {
            assert forall|t: DependencyType| s@ != spec_ty_name(t) by {
                match t {
                    DependencyType::Standard => assert(s@ != spec_ty_name(t)),
                    DependencyType::Peer => assert(s@ != spec_ty_name(t)),
                    DependencyType::Dev => assert(s@ != spec_ty_name(t)),
                }
            }
        }
        None
    }
}

/// The rendering of a specifier: `name@requirement`, with `#index` when an
/// index alias is named.
pub open spec fn spec_render_specifier(s: DependencySpecifiers) -> Seq<char> {
    match s {
        DependencySpecifiers::Pesde(p) => p.name.spec_render() + seq!['@']
            + spec_render_req(p.version) + (match p.index {
                Some(ix) => seq!['#'] + ix@,
                None => Seq::empty(),
            }),
    }
}

/// Renders a specifier.
pub fn render_specifier(s: &DependencySpecifiers) -> (r: String)
    ensures
        r@ == spec_render_specifier(*s),
{
    match s {
        DependencySpecifiers::Pesde(p) => {
            let mut out = p.name.render();
            out.append("@");
            let req = p.version.render();
            out.append(req.as_str());
            if let Some(ix) = &p.index {
                out.append("#");
                out.append(ix.as_str());
            }
            proof {
                reveal_strlit("@");
                reveal_strlit("#");
                assert(out@ =~= spec_render_specifier(*s));
            }
            out
        },
    }
}

/// Parses a specifier. Canonicality is enforced by the document-level
/// re-rendering check, so this scan is deliberately permissive; what it
/// accepts is structurally valid.
pub fn parse_specifier(s: &str) -> (r: Option<DependencySpecifiers>)
    ensures
        r matches Some(sp) ==> sp.wf(),
{
    let n = s.unicode_len();
    let at = match crate::version::find_char(s, '@') {
        Some(k) => k,
        None => { return None; },
    };
    let name = match PackageNames::from_str(s.substring_char(0, at)) {
        Ok(p) => p,
        Err(_) => { return None; },
    };
    let rest = s.substring_char(at + 1, n);
    let rn = rest.unicode_len();
    let (req_str, index) = match crate::version::find_char(rest, '#') {
        Some(h) => (
            String::from_str(rest.substring_char(0, h)),
            Some(String::from_str(rest.substring_char(h + 1, rn))),
        ),
        None => (String::from_str(rest), None),
    };
    let req = match VersionReq::parse(req_str.as_str()) {
        Some(q) => q,
        None => { return None; },
    };
    match name {
        PackageNames::Pesde(p) => Some(DependencySpecifiers::Pesde(PesdeDependencySpecifier {
            name: PackageNames::Pesde(p),
            version: req,
            index,
        })),
    }
}

/// The rendering of an override key: its names joined by `/`.
pub open spec fn spec_render_override_key(k: OverrideKey) -> Seq<char> {
    crate::version::spec_join(k.view_v(), '/')
}

/// Renders an override key.
pub fn render_override_key(k: &OverrideKey) -> (r: String)
    ensures
        r@ == spec_render_override_key(*k),
{
    let mut out = String::new();
    let mut i: usize = 0;
    let ghost l = k.view_v();
    while i < k.path.len()
        invariant
            l == k.view_v(),
            l.len() == k.path@.len(),
            i <= k.path@.len(),
            out@ == crate::version::spec_join(l.take(i as int), '/'),
        decreases k.path@.len() - i,
    {
        if i > 0 {
            out.append("/");
            proof {
                reveal_strlit("/");
            }
        }
        out.append(k.path[i].as_str());
        proof {
            if i == 0 {
                assert(l.take(1).len() == 1);
                assert(l.take(1)[0] == l[0]);
                assert(out@ =~= crate::version::spec_join(l.take(1), '/'));
            } else {
                crate::version::lemma_spec_join_last(l.take(i as int + 1), '/');
                assert(l.take(i as int + 1).take(i as int) =~= l.take(i as int));
                assert(l.take(i as int + 1).last() == l[i as int]);
                assert(out@ =~= crate::version::spec_join(l.take(i as int + 1), '/'));
            }
        }
        i += 1;
    }
    proof {
        assert(l.take(l.len() as int) =~= l);
    }
    out
}

/// A string that renders a package name: a valid scope, a slash, a valid
/// name.
pub open spec fn is_name_render(t: Seq<char>) -> bool {
    exists|sc: Seq<char>, nm: Seq<char>| crate::names::valid_segment(sc)
        && crate::names::valid_segment(nm) && t == sc + seq!['/'] + nm
}

/// Every element of the path is a valid rendered package name.
pub open spec fn valid_override_path(p: Seq<String>) -> bool {
    forall|j: int| 0 <= j < p.len() ==> is_name_render((#[trigger] p[j])@)
}

/// Parses an override key: an even run of name segments, two per package
/// name; every element of an accepted key is a valid rendered name.
pub fn parse_override_key(s: &str) -> (r: Option<OverrideKey>)
    ensures
        r matches Some(k) ==> valid_override_path(k.path@),
{
    let parts = split_on(s, '/');
    if parts.len() == 0 || parts.len() % 2 != 0 {
        return None;
    }
    let mut path: Vec<String> = Vec::new();
    let mut i: usize = 0;
    while i + 1 < parts.len()
        invariant
            i % 2 == 0,
            forall|j: int| 0 <= j < path@.len() ==> is_name_render((#[trigger] path@[j])@),
        decreases parts@.len() - i,
    {
        let mut name = String::from_str(parts[i].as_str());
        name.append("/");
        name.append(parts[i + 1].as_str());
        let parsed = match PackageNames::from_str(name.as_str()) {
            Ok(p) => p,
            Err(_) => { return None; },
        };
        let ghost pg = parsed;
        let ghost path0 = path@;
        path.push(name);
        proof {
            match pg {
                PackageNames::Pesde(pn) => {
                    assert((path@[path@.len() - 1])@ == pn.scope@ + seq!['/'] + pn.name@);
                    assert(is_name_render((path@[path@.len() - 1])@));
                },
            }
            assert forall|j: int| 0 <= j < path@.len()
                implies is_name_render((#[trigger] path@[j])@) by {
                if j < path0.len() {
                    assert(path@[j] == path0[j]);
                    assert(is_name_render((path0[j])@));
                }
            }
        }
        i += 2;
    }
    Some(OverrideKey { path })
}

} // verus!

verus! {

// ---------------------------------------------------------------------------
// Emission
// ---------------------------------------------------------------------------

/// One `key = "value"` line.
pub open spec fn spec_kv(key: Seq<char>, value: Seq<char>) -> Seq<char> {
    key + " = \""@ + value + "\"\n"@
}

/// Appends one `key = "value"` line.
fn push_kv(out: &mut String, key: &str, value: &str)
    ensures
        final(out)@ == old(out)@ + spec_kv(key@, value@),
{
    out.append(key);
    out.append(" = \"");
    out.append(value);
    out.append("\"\n");
    proof {
        assert(out@ =~= old(out)@ + spec_kv(key@, value@));
    }
}

/// Quoted values joined by `, `.
pub open spec fn spec_qlist(l: Seq<Seq<char>>) -> Seq<char>
    decreases l.len(),
{
    if l.len() == 0 {
        Seq::empty()
    } else if l.len() == 1 {
        seq!['"'] + l[0] + seq!['"']
    } else {
        seq!['"'] + l[0] + seq!['"'] + ", "@ + spec_qlist(l.skip(1))
    }
}

/// A quoted list splits off its last element.
proof fn lemma_qlist_last(l: Seq<Seq<char>>)
    requires
        l.len() >= 2,
    ensures
        spec_qlist(l) == spec_qlist(l.take(l.len() - 1)) + ", "@ + seq!['"'] + l.last()
            + seq!['"'],
    decreases l.len(),
{
    if l.len() == 2 {
        assert(l.skip(1).len() == 1);
        assert(spec_qlist(l.skip(1)) == seq!['"'] + l.skip(1)[0] + seq!['"']);
        assert(l.skip(1)[0] == l[1]);
        assert(l.take(1).len() == 1);
        assert(spec_qlist(l.take(1)) == seq!['"'] + l.take(1)[0] + seq!['"']);
        assert(l.take(1)[0] == l[0]);
        assert(spec_qlist(l) =~= spec_qlist(l.take(1)) + ", "@ + seq!['"'] + l.last()
            + seq!['"']);
    } else {
        lemma_qlist_last(l.skip(1));
        assert(l.skip(1).take(l.len() - 2) =~~= l.take(l.len() - 1).skip(1));
        assert(l.take(l.len() - 1)[0] == l[0]);
        assert(l.skip(1).last() == l.last());
        assert(spec_qlist(l.take(l.len() - 1))
            == seq!['"'] + l[0] + seq!['"'] + ", "@
                + spec_qlist(l.take(l.len() - 1).skip(1)));
        assert(spec_qlist(l)
            =~= spec_qlist(l.take(l.len() - 1)) + ", "@ + seq!['"'] + l.last() + seq!['"']);
    }
}

/// One `key = ["a", "b"]` line.
pub open spec fn spec_list_line(key: Seq<char>, l: Seq<Seq<char>>) -> Seq<char> {
    key + " = ["@ + spec_qlist(l) + "]\n"@
}

/// Appends one `key = [..]` line.
fn push_list(out: &mut String, key: &str, values: &Vec<String>)
    ensures
        final(out)@ == old(out)@ + spec_list_line(key@, idents_view(values@)),
{
    let ghost l = idents_view(values@);
    out.append(key);
    out.append(" = [");
    let ghost head = out@;
    let mut i: usize = 0;
    while i < values.len()
        invariant
            l == idents_view(values@),
            l.len() == values@.len(),
            i <= values@.len(),
            out@ == head + spec_qlist(l.take(i as int)),
        decreases values@.len() - i,
    {
        if i > 0 {
            out.append(", ");
        }
        out.append("\"");
        out.append(values[i].as_str());
        out.append("\"");
        proof {
            reveal_strlit("\"");
            reveal_strlit(", ");
            if i == 0 {
                assert(l.take(1).len() == 1);
                assert(l.take(1)[0] == l[0]);
                assert(l[0] == values@[0]@);
                assert(out@ =~= head + spec_qlist(l.take(1)));
            } else {
                lemma_qlist_last(l.take(i as int + 1));
                assert(l.take(i as int + 1).take(i as int) =~~= l.take(i as int));
                assert(l.take(i as int + 1).last() == l[i as int]);
                assert(l[i as int] == values@[i as int]@);
                assert(out@ =~= head + spec_qlist(l.take(i as int + 1)));
            }
        }
        i += 1;
    }
    out.append("]\n");
    proof {
        assert(l.take(l.len() as int) =~~= l);
        assert(out@ =~= old(out)@ + spec_list_line(key@, l));
    }
}

/// The rendering of one recorded dependency edge:
/// `childname=child version id=alias`.
pub open spec fn spec_dep_item(d: (PackageNames, (VersionId, String))) -> Seq<char> {
    d.0.spec_render() + seq!['='] + d.1.0.spec_render() + seq!['='] + d.1.1@
}

/// The rendering of one declared dependency: `alias=specifier=type`.
pub open spec fn spec_pkg_dep_item(d: (String, (DependencySpecifiers, DependencyType))) -> Seq<char> {
    d.0@ + seq!['='] + spec_render_specifier(d.1.0) + seq!['='] + spec_ty_name(d.1.1)
}

/// The rendering of one override entry: `key=specifier`.
pub open spec fn spec_override_item(o: (OverrideKey, DependencySpecifiers)) -> Seq<char> {
    spec_render_override_key(o.0) + seq!['='] + spec_render_specifier(o.1)
}

/// The `direct` field: `alias=specifier=type`.
pub open spec fn spec_direct_value(d: (String, DependencySpecifiers, DependencyType)) -> Seq<char> {
    d.0@ + seq!['='] + spec_render_specifier(d.1) + seq!['='] + spec_ty_name(d.2)
}

/// The full text of one graph node block.
#[verifier::opaque]
pub open spec fn spec_emit_node(e: DownloadedEntry) -> Seq<char> {
    "\n[[graph]]\n"@
        + spec_kv("name"@, e.name.spec_render())
        + spec_kv("version"@, e.version.spec_render())
        + spec_kv("resolved_ty"@, spec_ty_name(e.node.node.resolved_ty))
        + (match e.node.node.direct {
            Some(d) => spec_kv("direct"@, spec_direct_value(d)),
            None => Seq::empty(),
        })
        + (if e.node.node.dependencies@.len() > 0 {
            spec_list_line("dependencies"@,
                e.node.node.dependencies@.map_values(|d: (PackageNames, (VersionId, String))|
                    spec_dep_item(d)))
        } else {
            Seq::empty()
        })
        + spec_kv("index_url"@, match e.node.node.pkg_ref {
            PackageRefs::Pesde(p) => p.index_url@,
        })
        + (if pkg_deps_of(e.node.node.pkg_ref).len() > 0 {
            spec_list_line("pkg_deps"@, pkg_deps_of(e.node.node.pkg_ref).map_values(
                |d: (String, (DependencySpecifiers, DependencyType))| spec_pkg_dep_item(d)))
        } else {
            Seq::empty()
        })
        + spec_kv("target_kind"@, spec_target_name(e.node.target.kind))
        + (match e.node.target.lib_path {
            Some(p) => spec_kv("lib"@, crate::version::spec_join(idents_view(p@), '/')),
            None => Seq::empty(),
        })
        + (match e.node.target.bin_path {
            Some(p) => spec_kv("bin"@, crate::version::spec_join(idents_view(p@), '/')),
            None => Seq::empty(),
        })
        + (if e.node.target.build_files@.len() > 0 {
            spec_list_line("build_files"@, idents_view(e.node.target.build_files@))
        } else {
            Seq::empty()
        })
}

/// The declared dependencies of a reference.
pub open spec fn pkg_deps_of(r: PackageRefs) -> Seq<(String, (DependencySpecifiers, DependencyType))> {
    match r {
        PackageRefs::Pesde(p) => p.dependencies@,
    }
}

/// The text of every graph node block, in order.
pub open spec fn spec_emit_nodes(s: Seq<DownloadedEntry>) -> Seq<char>
    decreases s.len(),
{
    if s.len() == 0 {
        Seq::empty()
    } else {
        spec_emit_node(s[0]) + spec_emit_nodes(s.skip(1))
    }
}

/// Emitting node blocks splits off the last block.
proof fn lemma_emit_nodes_last(s: Seq<DownloadedEntry>)
    requires
        s.len() >= 1,
    ensures
        spec_emit_nodes(s) == spec_emit_nodes(s.take(s.len() - 1)) + spec_emit_node(s.last()),
    decreases s.len(),
{
    if s.len() == 1 {
        assert(s.skip(1).len() == 0);
        assert(spec_emit_nodes(s.skip(1)) == Seq::<char>::empty());
        assert(spec_emit_nodes(s.take(0)) == Seq::<char>::empty());
        assert(spec_emit_nodes(s) =~= spec_emit_nodes(s.take(0)) + spec_emit_node(s[0]));
    } else {
        lemma_emit_nodes_last(s.skip(1));
        assert(s.skip(1).take(s.len() - 2) =~~= s.take(s.len() - 1).skip(1));
        assert(s.take(s.len() - 1)[0] == s[0]);
        assert(s.skip(1).last() == s.last());
        assert(spec_emit_nodes(s.take(s.len() - 1))
            == spec_emit_node(s[0]) + spec_emit_nodes(s.take(s.len() - 1).skip(1)));
        assert(spec_emit_nodes(s)
            =~= spec_emit_nodes(s.take(s.len() - 1)) + spec_emit_node(s.last()));
    }
}

/// The full text of a lockfile: header, overrides, workspace, graph, in
/// that order.
pub open spec fn spec_emit_lockfile(lf: Lockfile) -> Seq<char> {
    spec_kv("name"@, lf.name.spec_render())
        + spec_kv("version"@, spec_render_version(lf.version))
        + spec_kv("target"@, spec_target_name(lf.target))
        + (if lf.overrides@.len() > 0 {
            spec_list_line("overrides"@,
                lf.overrides@.map_values(|o: (OverrideKey, DependencySpecifiers)|
                    spec_override_item(o)))
        } else {
            Seq::empty()
        })
        + (if workspace_items(lf.workspace@).len() > 0 {
            spec_list_line("workspace"@, workspace_items(lf.workspace@))
        } else {
            Seq::empty()
        })
        + spec_emit_nodes(lf.graph.nodes@)
}

/// The flattened workspace items: `name=target=path`, member by member.
pub open spec fn workspace_items(w: Seq<(PackageName, Vec<(TargetKind, String)>)>) -> Seq<Seq<char>>
    decreases w.len(),
{
    if w.len() == 0 {
        Seq::empty()
    } else {
        member_items(w[0]) + workspace_items(w.skip(1))
    }
}

/// The items of one workspace member.
pub open spec fn member_items(m: (PackageName, Vec<(TargetKind, String)>)) -> Seq<Seq<char>> {
    m.1@.map_values(|t: (TargetKind, String)|
        m.0.spec_render() + seq!['='] + spec_target_name(t.0) + seq!['='] + t.1@)
}

} // verus!

verus! {

/// Renders one node block.
#[verifier::rlimit(100)]
fn emit_node(e: &DownloadedEntry) -> (r: String)
    ensures
        r@ == spec_emit_node(*e),
{
    let mut out = String::from_str("\n[[graph]]\n");
    let name = e.name.render();
    push_kv(&mut out, "name", name.as_str());
    let version = e.version.render();
    push_kv(&mut out, "version", version.as_str());
    push_kv(&mut out, "resolved_ty", ty_name(e.node.node.resolved_ty));
    if let Some((alias, spec, ty)) = &e.node.node.direct {
        let mut v = alias.clone();
        v.append("=");
        let sp = render_specifier(spec);
        v.append(sp.as_str());
        v.append("=");
        v.append(ty_name(*ty));
        proof {
            reveal_strlit("=");
            assert(v@ =~= spec_direct_value(((e.node.node.direct->0).0,
                (e.node.node.direct->0).1, (e.node.node.direct->0).2)));
            assert(((e.node.node.direct->0).0, (e.node.node.direct->0).1,
                (e.node.node.direct->0).2) == e.node.node.direct->0);
        }
        push_kv(&mut out, "direct", v.as_str());
    }
    if e.node.node.dependencies.len() > 0 {
        let ghost dl = e.node.node.dependencies@.map_values(
            |d: (PackageNames, (VersionId, String))| spec_dep_item(d));
        let mut items: Vec<String> = Vec::new();
        let mut i: usize = 0;
        while i < e.node.node.dependencies.len()
            invariant
                dl == e.node.node.dependencies@.map_values(
                    |d: (PackageNames, (VersionId, String))| spec_dep_item(d)),
                dl.len() == e.node.node.dependencies@.len(),
                i <= e.node.node.dependencies@.len(),
                items@.len() == i,
                forall|j: int| 0 <= j < i ==> (#[trigger] items@[j])@ == dl[j],
            decreases e.node.node.dependencies@.len() - i,
        {
            let (dn, (dv, da)) = &e.node.node.dependencies[i];
            let mut v = dn.render();
            v.append("=");
            let dvr = dv.render();
            v.append(dvr.as_str());
            v.append("=");
            v.append(da.as_str());
            proof {
                reveal_strlit("=");
                assert(v@ =~= spec_dep_item(e.node.node.dependencies@[i as int]));
                assert(dl[i as int] == spec_dep_item(e.node.node.dependencies@[i as int]));
            }
            items.push(v);
            i += 1;
        }
        proof {
            assert(idents_view(items@) =~~= dl);
        }
        push_list(&mut out, "dependencies", &items);
    }
    match &e.node.node.pkg_ref {
        PackageRefs::Pesde(p) => {
            push_kv(&mut out, "index_url", p.index_url.as_str());
            if p.dependencies.len() > 0 {
                let ghost pl = p.dependencies@.map_values(
                    |d: (String, (DependencySpecifiers, DependencyType))| spec_pkg_dep_item(d));
                let mut items: Vec<String> = Vec::new();
                let mut i: usize = 0;
                while i < p.dependencies.len()
                    invariant
                        pl == p.dependencies@.map_values(
                            |d: (String, (DependencySpecifiers, DependencyType))|
                                spec_pkg_dep_item(d)),
                        pl.len() == p.dependencies@.len(),
                        i <= p.dependencies@.len(),
                        items@.len() == i,
                        forall|j: int| 0 <= j < i ==> (#[trigger] items@[j])@ == pl[j],
                    decreases p.dependencies@.len() - i,
                {
                    let (alias, (spec, ty)) = &p.dependencies[i];
                    let mut v = alias.clone();
                    v.append("=");
                    let sp = render_specifier(spec);
                    v.append(sp.as_str());
                    v.append("=");
                    v.append(ty_name(*ty));
                    proof {
                        reveal_strlit("=");
                        assert(v@ =~= spec_pkg_dep_item(p.dependencies@[i as int]));
                        assert(pl[i as int] == spec_pkg_dep_item(p.dependencies@[i as int]));
                    }
                    items.push(v);
                    i += 1;
                }
                proof {
                    assert(idents_view(items@) =~~= pl);
                }
                push_list(&mut out, "pkg_deps", &items);
            }
        },
    }
    push_kv(&mut out, "target_kind", e.node.target.kind.as_str());
    if let Some(p) = &e.node.target.lib_path {
        let v = crate::version::join_idents_slash(p);
        push_kv(&mut out, "lib", v.as_str());
    }
    if let Some(p) = &e.node.target.bin_path {
        let v = crate::version::join_idents_slash(p);
        push_kv(&mut out, "bin", v.as_str());
    }
    if e.node.target.build_files.len() > 0 {
        push_list(&mut out, "build_files", &e.node.target.build_files);
    }
    proof {
        reveal(spec_emit_node);
        assert(out@ =~= spec_emit_node(*e));
    }
    out
}

impl Lockfile {
    /// Serializes the lockfile: project header, overrides, workspace,
    /// graph, in that stable order. Graph blocks appear in the graph's own
    /// node order; the resolver discovers nodes deterministically, so two
    /// runs over the same inputs serialize identically. (The catalog's
    /// name-then-version order is not maintained here.)
    #[verifier::rlimit(100)]
    pub fn emit(&self) -> (r: String)
        ensures
            r@ == spec_emit_lockfile(*self),
    {
        let mut out = String::new();
        let name = self.name.render();
        push_kv(&mut out, "name", name.as_str());
        let version = self.version.render();
        push_kv(&mut out, "version", version.as_str());
        push_kv(&mut out, "target", self.target.as_str());
        if self.overrides.len() > 0 {
            let ghost ol = self.overrides@.map_values(
                |o: (OverrideKey, DependencySpecifiers)| spec_override_item(o));
            let mut items: Vec<String> = Vec::new();
            let mut i: usize = 0;
            while i < self.overrides.len()
                invariant
                    ol == self.overrides@.map_values(
                        |o: (OverrideKey, DependencySpecifiers)| spec_override_item(o)),
                    ol.len() == self.overrides@.len(),
                    i <= self.overrides@.len(),
                    items@.len() == i,
                    forall|j: int| 0 <= j < i ==> (#[trigger] items@[j])@ == ol[j],
                decreases self.overrides@.len() - i,
            {
                let (k, spec) = &self.overrides[i];
                let mut v = render_override_key(k);
                v.append("=");
                let sp = render_specifier(spec);
                v.append(sp.as_str());
                proof {
                    reveal_strlit("=");
                    assert(v@ =~= spec_override_item(self.overrides@[i as int]));
                    assert(ol[i as int] == spec_override_item(self.overrides@[i as int]));
                }
                items.push(v);
                i += 1;
            }
            proof {
                assert(idents_view(items@) =~~= ol);
            }
            push_list(&mut out, "overrides", &items);
        }
        let witems = flatten_workspace(&self.workspace);
        if witems.len() > 0 {
            push_list(&mut out, "workspace", &witems);
        } else {
            proof {
                assert(workspace_items(self.workspace@).len() == 0);
            }
        }
        let mut i: usize = 0;
        let ghost head = out@;
        while i < self.graph.nodes.len()
            invariant
                i <= self.graph.nodes@.len(),
                out@ == head + spec_emit_nodes(self.graph.nodes@.take(i as int)),
            decreases self.graph.nodes@.len() - i,
        {
            let block = emit_node(&self.graph.nodes[i]);
            out.append(block.as_str());
            proof {
                if i == 0 {
                    assert(self.graph.nodes@.take(1).len() == 1);
                    assert(self.graph.nodes@.take(1)[0] == self.graph.nodes@[0]);
                    assert(self.graph.nodes@.take(1).skip(1).len() == 0);
                    assert(spec_emit_nodes(self.graph.nodes@.take(1).skip(1))
                        == Seq::<char>::empty());
                    assert(out@ =~= head + spec_emit_nodes(self.graph.nodes@.take(1)));
                } else {
                    lemma_emit_nodes_last(self.graph.nodes@.take(i as int + 1));
                    assert(self.graph.nodes@.take(i as int + 1).take(i as int)
                        =~~= self.graph.nodes@.take(i as int));
                    assert(self.graph.nodes@.take(i as int + 1).last()
                        == self.graph.nodes@[i as int]);
                    assert(out@ =~= head + spec_emit_nodes(self.graph.nodes@.take(i as int + 1)));
                }
            }
            i += 1;
        }
        proof {
            assert(self.graph.nodes@.take(self.graph.nodes@.len() as int)
                =~~= self.graph.nodes@);
            assert(out@ =~= spec_emit_lockfile(*self));
        }
        out
    }
}

/// Flattens the workspace map into its rendered items.
fn flatten_workspace(w: &Vec<(PackageName, Vec<(TargetKind, String)>)>) -> (r: Vec<String>)
    ensures
        idents_view(r@) == workspace_items(w@),
{
    let mut out: Vec<String> = Vec::new();
    let mut i: usize = 0;
    proof {
        assert(idents_view(out@) =~~= workspace_items(w@.take(0)));
    }
    while i < w.len()
        invariant
            i <= w@.len(),
            idents_view(out@) == workspace_items(w@.take(i as int)),
        decreases w@.len() - i,
    {
        let ghost out0 = out@;
        let (name, targets) = &w[i];
        let mut t: usize = 0;
        while t < targets.len()
            invariant
                t <= targets@.len(),
                targets@ == w@[i as int].1@,
                i < w@.len(),
                name == &w@[i as int].0,
                out@.len() == out0.len() + t,
                forall|j: int| 0 <= j < out0.len() ==> out@[j] == out0[j],
                forall|j: int| 0 <= j < t
                    ==> (#[trigger] out@[out0.len() + j])@ == member_items(w@[i as int])[j],
            decreases targets@.len() - t,
        {
            let (tk, path) = &targets[t];
            let mut v = name.render();
            v.append("=");
            v.append(tk.as_str());
            v.append("=");
            v.append(path.as_str());
            proof {
                reveal_strlit("=");
                assert(member_items(w@[i as int])[t as int]
                    == w@[i as int].0.spec_render() + seq!['=']
                        + spec_target_name(w@[i as int].1@[t as int].0) + seq!['=']
                        + w@[i as int].1@[t as int].1@);
                assert(v@ =~= member_items(w@[i as int])[t as int]);
            }
            out.push(v);
            t += 1;
        }
        proof {
            lemma_workspace_items_take(w@, i as int);
            assert forall|j: int| 0 <= j < out@.len()
                implies idents_view(out@)[j] == workspace_items(w@.take(i as int + 1))[j] by {
                assert(idents_view(out@)[j] == out@[j]@);
                if j < out0.len() {
                    assert(out@[j] == out0[j]);
                    assert(idents_view(out0)[j] == workspace_items(w@.take(i as int))[j]);
                    assert(workspace_items(w@.take(i as int + 1))[j]
                        == workspace_items(w@.take(i as int))[j]);
                } else {
                    let jj = j - out0.len();
                    assert(out@[out0.len() + jj]@ == member_items(w@[i as int])[jj]);
                    assert(out@[j]@ == member_items(w@[i as int])[j - out0.len()]);
                    assert(workspace_items(w@.take(i as int + 1))[j]
                        == member_items(w@[i as int])[j - out0.len()]);
                }
            }
            assert(workspace_items(w@.take(i as int)).len() == out0.len());
            assert(workspace_items(w@.take(i as int + 1)).len()
                == out0.len() + member_items(w@[i as int]).len());
            assert(idents_view(out@) =~~= workspace_items(w@.take(i as int + 1)));
        }
        i += 1;
    }
    proof {
        assert(w@.take(w@.len() as int) =~~= w@);
    }
    out
}

/// `workspace_items` of a longer prefix appends the next member's items.
proof fn lemma_workspace_items_take(w: Seq<(PackageName, Vec<(TargetKind, String)>)>, i: int)
    requires
        0 <= i < w.len(),
    ensures
        workspace_items(w.take(i + 1)) == workspace_items(w.take(i)) + member_items(w[i]),
    decreases i,
{
    if i == 0 {
        assert(w.take(1).len() == 1);
        assert(w.take(1)[0] == w[0]);
        assert(w.take(1).skip(1).len() == 0);
        assert(workspace_items(w.take(1).skip(1)) == Seq::<Seq<char>>::empty());
        assert(workspace_items(w.take(0)).len() == 0);
        assert(workspace_items(w.take(1)) =~~= workspace_items(w.take(0)) + member_items(w[0]));
    } else {
        lemma_workspace_items_take(w.skip(1), i - 1);
        assert(w.skip(1).take(i) =~~= w.take(i + 1).skip(1));
        assert(w.skip(1).take(i - 1) =~~= w.take(i).skip(1));
        assert(w.take(i + 1)[0] == w[0]);
        assert(w.take(i)[0] == w[0]);
        assert(w.skip(1)[i - 1] == w[i]);
        assert(workspace_items(w.take(i + 1))
            == member_items(w[0]) + workspace_items(w.take(i + 1).skip(1)));
        assert(workspace_items(w.take(i))
            == member_items(w[0]) + workspace_items(w.take(i).skip(1)));
        assert(workspace_items(w.take(i + 1))
            =~~= workspace_items(w.take(i)) + member_items(w[i]));
    }
}

} // verus!

verus! {

// ---------------------------------------------------------------------------
// Parsing: a permissive scan, then a canonicality check. The parser
// accepts exactly the serializer's output.
// ---------------------------------------------------------------------------

/// A raw line value: a quoted string or a list of quoted strings.
enum RawValue {
    /// `"..."`.
    Str(String),
    /// `["...", "..."]`.
    List(Vec<String>),
}

/// Splits a `key = value` line. No contract: the document-level check
/// rejects anything the serializer would not have written.
fn parse_kv_line(line: &str) -> (r: Option<(String, RawValue)>)
{
    let n = line.unicode_len();
    let eq = match crate::version::find_char(line, '=') {
        Some(k) => k,
        None => { return None; },
    };
    let key = crate::reqs::trim_spaces(line.substring_char(0, eq));
    if eq + 1 > n {
        return None;
    }
    let raw = crate::reqs::trim_spaces(line.substring_char(eq + 1, n));
    let rs = raw.as_str();
    let rn = rs.unicode_len();
    if rn >= 2 && rs.get_char(0) == '"' && rs.get_char(rn - 1) == '"' {
        return Some((key, RawValue::Str(String::from_str(rs.substring_char(1, rn - 1)))));
    }
    if rn >= 2 && rs.get_char(0) == '[' && rs.get_char(rn - 1) == ']' {
        let inner = rs.substring_char(1, rn - 1);
        let mut items: Vec<String> = Vec::new();
        if inner.unicode_len() == 0 {
            return Some((key, RawValue::List(items)));
        }
        let parts = split_on(inner, ',');
        let mut i: usize = 0;
        while i < parts.len()
            decreases parts@.len() - i,
        {
            let t = crate::reqs::trim_spaces(parts[i].as_str());
            let ts = t.as_str();
            let tn = ts.unicode_len();
            if !(tn >= 2 && ts.get_char(0) == '"' && ts.get_char(tn - 1) == '"') {
                return None;
            }
            items.push(String::from_str(ts.substring_char(1, tn - 1)));
            i += 1;
        }
        return Some((key, RawValue::List(items)));
    }
    None
}

/// Splits a `a=b=c` item at its first and last `=`.
fn split3(s: &str) -> (r: Option<(String, String, String)>)
{
    let n = s.unicode_len();
    let first = match crate::version::find_char(s, '=') {
        Some(k) => k,
        None => { return None; },
    };
    // the last `=`
    let mut last: usize = first;
    let mut i: usize = first;
    while i < n
        invariant
            first <= i,
            first <= last < n,
            n == s@.len(),
            i <= n,
        decreases n - i,
    {
        if s.get_char(i) == '=' {
            last = i;
        }
        i += 1;
    }
    if last == first {
        return None;
    }
    Some((
        String::from_str(s.substring_char(0, first)),
        String::from_str(s.substring_char(first + 1, last)),
        String::from_str(s.substring_char(last + 1, n)),
    ))
}

/// Splits a `a=b` item at its first `=`.
fn split2(s: &str) -> (r: Option<(String, String)>)
{
    let n = s.unicode_len();
    let first = match crate::version::find_char(s, '=') {
        Some(k) => k,
        None => { return None; },
    };
    Some((
        String::from_str(s.substring_char(0, first)),
        String::from_str(s.substring_char(first + 1, n)),
    ))
}

/// The fields of one node block while it is being scanned.
struct NodeDraft {
    name: Option<PackageNames>,
    version: Option<VersionId>,
    resolved_ty: Option<DependencyType>,
    direct: Option<(String, DependencySpecifiers, DependencyType)>,
    dependencies: Vec<(PackageNames, (VersionId, String))>,
    index_url: Option<String>,
    pkg_deps: Vec<(String, (DependencySpecifiers, DependencyType))>,
    target_kind: Option<TargetKind>,
    lib: Option<Vec<String>>,
    bin: Option<Vec<String>>,
    build_files: Vec<String>,
}

impl NodeDraft {
    fn new() -> NodeDraft {
        NodeDraft {
            name: None,
            version: None,
            resolved_ty: None,
            direct: None,
            dependencies: Vec::new(),
            index_url: None,
            pkg_deps: Vec::new(),
            target_kind: None,
            lib: None,
            bin: None,
            build_files: Vec::new(),
        }
    }

    fn finish(self) -> (r: Option<DownloadedEntry>)
    {
        let name = match self.name { Some(x) => x, None => { return None; } };
        let version = match self.version { Some(x) => x, None => { return None; } };
        let resolved_ty = match self.resolved_ty { Some(x) => x, None => { return None; } };
        let index_url = match self.index_url { Some(x) => x, None => { return None; } };
        let target_kind = match self.target_kind { Some(x) => x, None => { return None; } };
        let pkg_ref = PackageRefs::Pesde(PesdePackageRef {
            name: name.clone_name(),
            version: version.version.clone_version(),
            index_url,
            dependencies: self.pkg_deps,
            target: version.target,
        });
        Some(DownloadedEntry {
            name,
            version,
            node: DownloadedDependencyGraphNode {
                target: crate::index::Target {
                    kind: target_kind,
                    lib_path: self.lib,
                    bin_path: self.bin,
                    build_files: self.build_files,
                },
                node: DependencyGraphNode {
                    direct: self.direct,
                    dependencies: self.dependencies,
                    resolved_ty,
                    pkg_ref,
                },
            },
        })
    }
}

/// Scans a lockfile document without judging canonicality.
fn parse_loose(s: &str) -> (r: Option<Lockfile>)
{
    let lines = split_on(s, '\n');
    let mut name: Option<PackageName> = None;
    let mut version: Option<Version> = None;
    let mut target: Option<TargetKind> = None;
    let mut overrides: Vec<(OverrideKey, DependencySpecifiers)> = Vec::new();
    let mut workspace: Vec<(PackageName, Vec<(TargetKind, String)>)> = Vec::new();
    let mut nodes: Vec<DownloadedEntry> = Vec::new();
    let mut draft: Option<NodeDraft> = None;
    let mut li: usize = 0;
    proof {
        reveal_strlit("");
        reveal_strlit("[[graph]]");
        reveal_strlit("name");
        reveal_strlit("version");
        reveal_strlit("target");
        reveal_strlit("overrides");
        reveal_strlit("workspace");
        reveal_strlit("resolved_ty");
        reveal_strlit("direct");
        reveal_strlit("dependencies");
        reveal_strlit("index_url");
        reveal_strlit("pkg_deps");
        reveal_strlit("target_kind");
        reveal_strlit("lib");
        reveal_strlit("bin");
        reveal_strlit("build_files");
    }
    while li < lines.len()
        decreases lines@.len() - li,
    {
        let line = &lines[li];
        li += 1;
        if crate::strutil::str_eq(line.as_str(), "") {
            continue;
        }
        if crate::strutil::str_eq(line.as_str(), "[[graph]]") {
            if let Some(d) = draft {
                match d.finish() {
                    Some(e) => nodes.push(e),
                    None => { return None; },
                }
            }
            draft = Some(NodeDraft::new());
            continue;
        }
        let (key, value) = match parse_kv_line(line.as_str()) {
            Some(kv) => kv,
            None => { return None; },
        };
        match draft {
            None => {
                // Header section.
                match value {
                    RawValue::Str(v) => {
                        if crate::strutil::str_eq(key.as_str(), "name") {
                            name = match PackageName::from_str(v.as_str()) {
                                Ok(p) => Some(p),
                                Err(_) => { return None; },
                            };
                        } else if crate::strutil::str_eq(key.as_str(), "version") {
                            version = match Version::parse(v.as_str()) {
                                Some(x) => Some(x),
                                None => { return None; },
                            };
                        } else if crate::strutil::str_eq(key.as_str(), "target") {
                            target = match TargetKind::from_str(v.as_str()) {
                                Some(x) => Some(x),
                                None => { return None; },
                            };
                        } else {
                            return None;
                        }
                    },
                    RawValue::List(items) => {
                        if crate::strutil::str_eq(key.as_str(), "overrides") {
                            let mut i: usize = 0;
                            while i < items.len()
                                decreases items@.len() - i,
                            {
                                let (k, v) = match split2(items[i].as_str()) {
                                    Some(x) => x,
                                    None => { return None; },
                                };
                                let ok = match parse_override_key(k.as_str()) {
                                    Some(x) => x,
                                    None => { return None; },
                                };
                                let spec = match parse_specifier(v.as_str()) {
                                    Some(x) => x,
                                    None => { return None; },
                                };
                                overrides.push((ok, spec));
                                i += 1;
                            }
                        } else if crate::strutil::str_eq(key.as_str(), "workspace") {
                            let mut i: usize = 0;
                            while i < items.len()
                                decreases items@.len() - i,
                            {
                                let (n2, t2, p2) = match split3(items[i].as_str()) {
                                    Some(x) => x,
                                    None => { return None; },
                                };
                                let pn = match PackageName::from_str(n2.as_str()) {
                                    Ok(x) => x,
                                    Err(_) => { return None; },
                                };
                                let tk = match TargetKind::from_str(t2.as_str()) {
                                    Some(x) => x,
                                    None => { return None; },
                                };
                                let mut entry: Vec<(TargetKind, String)> = Vec::new();
                                entry.push((tk, p2));
                                workspace.push((pn, entry));
                                i += 1;
                            }
                        } else {
                            return None;
                        }
                    },
                }
            },
            Some(ref mut d) => {
                match value {
                    RawValue::Str(v) => {
                        if crate::strutil::str_eq(key.as_str(), "name") {
                            d.name = match PackageNames::from_str(v.as_str()) {
                                Ok(p) => Some(p),
                                Err(_) => { return None; },
                            };
                        } else if crate::strutil::str_eq(key.as_str(), "version") {
                            d.version = match VersionId::parse(v.as_str()) {
                                Some(x) => Some(x),
                                None => { return None; },
                            };
                        } else if crate::strutil::str_eq(key.as_str(), "resolved_ty") {
                            d.resolved_ty = match parse_ty(v.as_str()) {
                                Some(x) => Some(x),
                                None => { return None; },
                            };
                        } else if crate::strutil::str_eq(key.as_str(), "direct") {
                            let (alias, spec_s, ty_s) = match split3(v.as_str()) {
                                Some(x) => x,
                                None => { return None; },
                            };
                            let spec = match parse_specifier(spec_s.as_str()) {
                                Some(x) => x,
                                None => { return None; },
                            };
                            let ty = match parse_ty(ty_s.as_str()) {
                                Some(x) => x,
                                None => { return None; },
                            };
                            d.direct = Some((alias, spec, ty));
                        } else if crate::strutil::str_eq(key.as_str(), "index_url") {
                            d.index_url = Some(v);
                        } else if crate::strutil::str_eq(key.as_str(), "target_kind") {
                            d.target_kind = match TargetKind::from_str(v.as_str()) {
                                Some(x) => Some(x),
                                None => { return None; },
                            };
                        } else if crate::strutil::str_eq(key.as_str(), "lib") {
                            d.lib = Some(split_on(v.as_str(), '/'));
                        } else if crate::strutil::str_eq(key.as_str(), "bin") {
                            d.bin = Some(split_on(v.as_str(), '/'));
                        } else {
                            return None;
                        }
                    },
                    RawValue::List(items) => {
                        if crate::strutil::str_eq(key.as_str(), "dependencies") {
                            let mut i: usize = 0;
                            while i < items.len()
                                decreases items@.len() - i,
                            {
                                let (n2, v2, a2) = match split3(items[i].as_str()) {
                                    Some(x) => x,
                                    None => { return None; },
                                };
                                let dn = match PackageNames::from_str(n2.as_str()) {
                                    Ok(x) => x,
                                    Err(_) => { return None; },
                                };
                                let dv = match VersionId::parse(v2.as_str()) {
                                    Some(x) => x,
                                    None => { return None; },
                                };
                                d.dependencies.push((dn, (dv, a2)));
                                i += 1;
                            }
                        } else if crate::strutil::str_eq(key.as_str(), "pkg_deps") {
                            let mut i: usize = 0;
                            while i < items.len()
                                decreases items@.len() - i,
                            {
                                let (a2, s2, t2) = match split3(items[i].as_str()) {
                                    Some(x) => x,
                                    None => { return None; },
                                };
                                let spec = match parse_specifier(s2.as_str()) {
                                    Some(x) => x,
                                    None => { return None; },
                                };
                                let ty = match parse_ty(t2.as_str()) {
                                    Some(x) => x,
                                    None => { return None; },
                                };
                                d.pkg_deps.push((a2, (spec, ty)));
                                i += 1;
                            }
                        } else if crate::strutil::str_eq(key.as_str(), "build_files") {
                            let mut i: usize = 0;
                            while i < items.len()
                                decreases items@.len() - i,
                            {
                                d.build_files.push(String::from_str(items[i].as_str()));
                                i += 1;
                            }
                        } else {
                            return None;
                        }
                    },
                }
            },
        }
    }
    if let Some(d) = draft {
        match d.finish() {
            Some(e) => nodes.push(e),
            None => { return None; },
        }
    }
    let name = match name { Some(x) => x, None => { return None; } };
    let version = match version { Some(x) => x, None => { return None; } };
    let target = match target { Some(x) => x, None => { return None; } };
    Some(Lockfile {
        name,
        version,
        target,
        overrides,
        workspace,
        graph: DownloadedGraph { nodes },
    })
}

impl Lockfile {
    /// Parses a lockfile. Accepts exactly the serializer's output: when
    /// parsing succeeds, re-serializing the result reproduces the input
    /// byte for byte (the lockfile round trip).
    pub fn parse(s: &str) -> (r: Option<Lockfile>)
        ensures
            r matches Some(lf) ==> s@ == spec_emit_lockfile(lf),
    {
        let lf = match parse_loose(s) {
            Some(x) => x,
            None => { return None; },
        };
        let canon = lf.emit();
        if crate::strutil::str_eq(canon.as_str(), s) {
            Some(lf)
        } else {
            None
        }
    }
}

} // verus!

verus! {

// ---------------------------------------------------------------------------
// Staleness
// ---------------------------------------------------------------------------

/// The signature of a declared dependency: its alias, its specifier as
/// written, and its declared type.
pub type DepSig = (Seq<char>, Seq<char>, DependencyType);

/// The signature of one table entry.
pub open spec fn spec_sig(e: (String, DependencySpecifiers), ty: DependencyType) -> DepSig {
    (e.0@, spec_render_specifier(e.1), ty)
}

/// Whether some direct node of the graph carries this signature.
pub open spec fn direct_has(g: Seq<DownloadedEntry>, sig: DepSig) -> bool {
    exists|i: int| 0 <= i < g.len() && ((#[trigger] g[i]).node.node.direct matches Some(d)
        && (d.0@, spec_render_specifier(d.1), d.2) == sig)
}

/// Whether some entry of one dependency table carries this signature.
pub open spec fn table_has(
    t: Seq<(String, DependencySpecifiers)>,
    ty: DependencyType,
    sig: DepSig,
) -> bool {
    exists|i: int| 0 <= i < t.len() && spec_sig(#[trigger] t[i], ty) == sig
}

/// The signature of one override entry: key and specifier, as written.
pub open spec fn override_sigs(
    s: Seq<(OverrideKey, DependencySpecifiers)>,
) -> Seq<(Seq<char>, Seq<char>)> {
    s.map_values(|o: (OverrideKey, DependencySpecifiers)|
        (spec_render_override_key(o.0), spec_render_specifier(o.1)))
}

/// A lockfile is up to date for a manifest when the overrides agree, the
/// target kind agrees, and the declared dependency set (aliases,
/// specifiers as written, and types) matches the lockfile's direct nodes
/// in both directions.
pub open spec fn spec_up_to_date(m: Manifest, lf: Lockfile) -> bool {
    &&& lf.target == m.target.kind
    &&& override_sigs(lf.overrides@) == override_sigs(m.overrides@)
    &&& forall|i: int| 0 <= i < m.dependencies@.len()
        ==> direct_has(lf.graph.nodes@, spec_sig(#[trigger] m.dependencies@[i],
            DependencyType::Standard))
    &&& forall|i: int| 0 <= i < m.peer_dependencies@.len()
        ==> direct_has(lf.graph.nodes@, spec_sig(#[trigger] m.peer_dependencies@[i],
            DependencyType::Peer))
    &&& forall|i: int| 0 <= i < m.dev_dependencies@.len()
        ==> direct_has(lf.graph.nodes@, spec_sig(#[trigger] m.dev_dependencies@[i],
            DependencyType::Dev))
    &&& forall|i: int| 0 <= i < lf.graph.nodes@.len()
        ==> ((#[trigger] lf.graph.nodes@[i]).node.node.direct matches Some(d)
            ==> table_has(m.dependencies@, DependencyType::Standard,
                    (d.0@, spec_render_specifier(d.1), d.2))
                || table_has(m.peer_dependencies@, DependencyType::Peer,
                    (d.0@, spec_render_specifier(d.1), d.2))
                || table_has(m.dev_dependencies@, DependencyType::Dev,
                    (d.0@, spec_render_specifier(d.1), d.2)))
}

/// A lockfile is usable for an unlocked run when the overrides and the
/// target kind agree; a stale one is silently discarded.
pub open spec fn spec_usable(m: Manifest, lf: Lockfile) -> bool {
    lf.target == m.target.kind
        && override_sigs(lf.overrides@) == override_sigs(m.overrides@)
}

/// Compares two override tables as written.
pub fn overrides_eq(
    a: &Vec<(OverrideKey, DependencySpecifiers)>,
    b: &Vec<(OverrideKey, DependencySpecifiers)>,
) -> (r: bool)
    ensures
        r == (override_sigs(a@) == override_sigs(b@)),
{
    if a.len() != b.len() {
        proof {
            assert(override_sigs(a@).len() != override_sigs(b@).len());
        }
        return false;
    }
    let mut i: usize = 0;
    while i < a.len()
        invariant
            a@.len() == b@.len(),
            i <= a@.len(),
            forall|j: int| 0 <= j < i
                ==> override_sigs(a@)[j] == override_sigs(b@)[j],
        decreases a@.len() - i,
    {
        let ka = render_override_key(&a[i].0);
        let kb = render_override_key(&b[i].0);
        let sa = render_specifier(&a[i].1);
        let sb = render_specifier(&b[i].1);
        if !crate::strutil::str_eq(ka.as_str(), kb.as_str())
            || !crate::strutil::str_eq(sa.as_str(), sb.as_str()) {
            proof {
                assert(override_sigs(a@)[i as int]
                    == (spec_render_override_key(a@[i as int].0),
                        spec_render_specifier(a@[i as int].1)));
                assert(override_sigs(b@)[i as int]
                    == (spec_render_override_key(b@[i as int].0),
                        spec_render_specifier(b@[i as int].1)));
            }
            return false;
        }
        proof {
            assert(override_sigs(a@)[i as int]
                == (spec_render_override_key(a@[i as int].0),
                    spec_render_specifier(a@[i as int].1)));
            assert(override_sigs(b@)[i as int]
                == (spec_render_override_key(b@[i as int].0),
                    spec_render_specifier(b@[i as int].1)));
        }
        i += 1;
    }
    proof {
        assert(override_sigs(a@) =~= override_sigs(b@));
    }
    true
}

/// Whether some direct node of the graph carries this signature.
fn graph_direct_has(g: &DownloadedGraph, alias: &str, spec_r: &str, ty: DependencyType)
    -> (r: bool)
    ensures
        r == direct_has(g.nodes@, (alias@, spec_r@, ty)),
{
    let mut i: usize = 0;
    while i < g.nodes.len()
        invariant
            i <= g.nodes@.len(),
            forall|j: int| 0 <= j < i ==> !((#[trigger] g.nodes@[j]).node.node.direct
                matches Some(d) && (d.0@, spec_render_specifier(d.1), d.2)
                    == (alias@, spec_r@, ty)),
        decreases g.nodes@.len() - i,
    {
        if let Some((da, ds, dt)) = &g.nodes[i].node.node.direct {
            let dsr = render_specifier(ds);
            if crate::strutil::str_eq(da.as_str(), alias)
                && crate::strutil::str_eq(dsr.as_str(), spec_r) && *dt == ty {
                return true;
            }
        }
        i += 1;
    }
    false
}

/// Whether every entry of one table has a direct node with its signature.
fn table_covered(
    t: &Vec<(String, DependencySpecifiers)>,
    ty: DependencyType,
    g: &DownloadedGraph,
) -> (r: bool)
    ensures
        r == forall|i: int| 0 <= i < t@.len()
            ==> direct_has(g.nodes@, spec_sig(#[trigger] t@[i], ty)),
{
    let mut i: usize = 0;
    while i < t.len()
        invariant
            i <= t@.len(),
            forall|j: int| 0 <= j < i
                ==> direct_has(g.nodes@, spec_sig(#[trigger] t@[j], ty)),
        decreases t@.len() - i,
    {
        let sr = render_specifier(&t[i].1);
        if !graph_direct_has(g, t[i].0.as_str(), sr.as_str(), ty) {
            proof {
                assert(spec_sig(t@[i as int], ty)
                    == (t@[i as int].0@, spec_render_specifier(t@[i as int].1), ty));
            }
            return false;
        }
        proof {
            assert(spec_sig(t@[i as int], ty)
                == (t@[i as int].0@, spec_render_specifier(t@[i as int].1), ty));
        }
        i += 1;
    }
    true
}

/// Whether one table has an entry with this signature.
fn table_contains(
    t: &Vec<(String, DependencySpecifiers)>,
    ty: DependencyType,
    alias: &str,
    spec_r: &str,
    dty: DependencyType,
) -> (r: bool)
    ensures
        r == table_has(t@, ty, (alias@, spec_r@, dty)),
{
    let mut i: usize = 0;
    while i < t.len()
        invariant
            i <= t@.len(),
            forall|j: int| 0 <= j < i ==> spec_sig(#[trigger] t@[j], ty)
                != (alias@, spec_r@, dty),
        decreases t@.len() - i,
    {
        let sr = render_specifier(&t[i].1);
        let same = crate::strutil::str_eq(t[i].0.as_str(), alias)
            && crate::strutil::str_eq(sr.as_str(), spec_r) && ty == dty;
        proof {
            assert(spec_sig(t@[i as int], ty)
                == (t@[i as int].0@, spec_render_specifier(t@[i as int].1), ty));
        }
        if same {
            return true;
        }
        i += 1;
    }
    false
}

/// Decides whether a lockfile is up to date for a manifest: the overrides,
/// the target kind, and the declared dependency set with its version
/// requirements must all agree.
pub fn lockfile_up_to_date(manifest: &Manifest, lockfile: &Lockfile) -> (r: bool)
    ensures
        r == spec_up_to_date(*manifest, *lockfile),
{
    if lockfile.target != manifest.target.kind {
        return false;
    }
    if !overrides_eq(&lockfile.overrides, &manifest.overrides) {
        return false;
    }
    if !table_covered(&manifest.dependencies, DependencyType::Standard, &lockfile.graph) {
        return false;
    }
    if !table_covered(&manifest.peer_dependencies, DependencyType::Peer, &lockfile.graph) {
        return false;
    }
    if !table_covered(&manifest.dev_dependencies, DependencyType::Dev, &lockfile.graph) {
        return false;
    }
    let mut i: usize = 0;
    while i < lockfile.graph.nodes.len()
        invariant
            i <= lockfile.graph.nodes@.len(),
            forall|j: int| 0 <= j < i
                ==> ((#[trigger] lockfile.graph.nodes@[j]).node.node.direct matches Some(d)
                    ==> table_has(manifest.dependencies@, DependencyType::Standard,
                            (d.0@, spec_render_specifier(d.1), d.2))
                        || table_has(manifest.peer_dependencies@, DependencyType::Peer,
                            (d.0@, spec_render_specifier(d.1), d.2))
                        || table_has(manifest.dev_dependencies@, DependencyType::Dev,
                            (d.0@, spec_render_specifier(d.1), d.2))),
        decreases lockfile.graph.nodes@.len() - i,
    {
        if let Some((da, ds, dt)) = &lockfile.graph.nodes[i].node.node.direct {
            let dsr = render_specifier(ds);
            let found = table_contains(&manifest.dependencies, DependencyType::Standard,
                    da.as_str(), dsr.as_str(), *dt)
                || table_contains(&manifest.peer_dependencies, DependencyType::Peer,
                    da.as_str(), dsr.as_str(), *dt)
                || table_contains(&manifest.dev_dependencies, DependencyType::Dev,
                    da.as_str(), dsr.as_str(), *dt);
            if !found {
                return false;
            }
        }
        i += 1;
    }
    true
}

/// Decides whether a prior lockfile may seed an unlocked run: the
/// overrides and the target kind must agree; a stale one is silently
/// dropped.
pub fn lockfile_usable(manifest: &Manifest, lockfile: &Lockfile) -> (r: bool)
    ensures
        r == spec_usable(*manifest, *lockfile),
{
    lockfile.target == manifest.target.kind
        && overrides_eq(&lockfile.overrides, &manifest.overrides)
}

/// Aborts of the install flow before any network work.
#[derive(Clone, Copy, PartialEq, Eq, Structural, Debug)]
pub enum InstallAbort {
    /// `--locked` was set and the lockfile does not match the manifest.
    OutOfSync,
}

/// Decides what a run starts from, before any network traffic: under
/// `--locked`, a missing or out-of-date lockfile aborts the run; otherwise
/// a prior lockfile seeds the run exactly when its overrides and target
/// still match, and is silently dropped otherwise.
pub fn prior_lockfile_decision(
    locked: bool,
    manifest: &Manifest,
    lockfile: Option<Lockfile>,
) -> (r: Result<Option<Lockfile>, InstallAbort>)
    ensures
        locked ==> (match r {
            Ok(prior) => prior matches Some(lf) && lockfile matches Some(lf0)
                && lf == lf0 && spec_up_to_date(*manifest, lf),
            Err(e) => e == InstallAbort::OutOfSync
                && (lockfile is None || !spec_up_to_date(*manifest, lockfile->0)),
        }),
        !locked ==> (match r {
            Ok(prior) => {
                &&& (prior matches Some(lf) ==> lockfile matches Some(lf0) && lf == lf0
                    && spec_usable(*manifest, lf))
                &&& (prior is None ==> lockfile is None
                    || !spec_usable(*manifest, lockfile->0))
            },
            Err(e) => false,
        }),
{
    match lockfile {
        None => {
            if locked {
                Err(InstallAbort::OutOfSync)
            } else {
                Ok(None)
            }
        },
        Some(lf) => {
            if locked {
                if lockfile_up_to_date(manifest, &lf) {
                    Ok(Some(lf))
                } else {
                    Err(InstallAbort::OutOfSync)
                }
            } else {
                if lockfile_usable(manifest, &lf) {
                    Ok(Some(lf))
                } else {
                    Ok(None)
                }
            }
        },
    }
}

} // verus!
