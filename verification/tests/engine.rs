//! End-to-end tests of the engine: resolution, download planning, linking
//! and the lockfile, against an in-memory index snapshot.

use pesde::download::{filter_prod, plan_downloads, strip_downloaded};
use pesde::graph::{
    DependencyGraph, DependencyGraphNode, DownloadedDependencyGraphNode, DownloadedEntry,
    DownloadedGraph, GraphEntry, insert_node,
};
use pesde::index::{Index, IndexFile, IndexFileEntry, Target};
use pesde::linker::link_plan;
use pesde::lockfile::{Lockfile, lockfile_up_to_date, lockfile_usable, prior_lockfile_decision,
    InstallAbort};
use pesde::manifest::{Manifest, OverrideKey};
use pesde::names::{PackageName, PackageNames};
use pesde::paths::resolve;
use pesde::registry::latest_entry;
use pesde::resolver::{ResolveGraphError, dependency_graph};
use pesde::reqs::VersionReq;
use pesde::source::{DependencySpecifiers, DependencyType, PackageRefs, PesdeDependencySpecifier,
    RefreshedSources};
use pesde::target::TargetKind;
use pesde::version::{Version, VersionId};

const INDEX_URL: &str = "https://example.invalid/index";

fn name(s: &str) -> PackageNames {
    PackageNames::from_str(s).unwrap()
}

fn pname(s: &str) -> PackageName {
    PackageName::from_str(s).unwrap()
}

fn v(s: &str) -> Version {
    Version::parse(s).unwrap()
}

fn req(s: &str) -> VersionReq {
    VersionReq::parse(s).unwrap()
}

fn vid(ver: &str, t: TargetKind) -> VersionId {
    VersionId { version: v(ver), target: t }
}

fn spec(nm: &str, rq: &str) -> DependencySpecifiers {
    DependencySpecifiers::Pesde(PesdeDependencySpecifier {
        name: name(nm),
        version: req(rq),
        index: None,
    })
}

fn lib_target(t: TargetKind) -> Target {
    Target {
        kind: t,
        lib_path: Some(vec!["lib".to_string()]),
        bin_path: None,
        build_files: Vec::new(),
    }
}

fn entry(ver: &str, t: TargetKind, deps: Vec<(String, (DependencySpecifiers, DependencyType))>)
    -> (VersionId, IndexFileEntry)
{
    (
        vid(ver, t),
        IndexFileEntry {
            target: lib_target(t),
            published_at: 1_700_000_000,
            description: None,
            dependencies: deps,
        },
    )
}

fn manifest(deps: Vec<(String, DependencySpecifiers)>) -> Manifest {
    Manifest {
        name: pname("u/x"),
        version: v("0.1.0"),
        target: lib_target(TargetKind::Luau),
        description: None,
        authors: Vec::new(),
        repository: None,
        license: None,
        indices: vec![("default".to_string(), INDEX_URL.to_string())],
        scripts: Vec::new(),
        overrides: Vec::new(),
        patches: Vec::new(),
        dependencies: deps,
        peer_dependencies: Vec::new(),
        dev_dependencies: Vec::new(),
        workspace_members: Vec::new(),
    }
}

fn url() -> String {
    INDEX_URL.to_string()
}

fn find_node<'a>(g: &'a DependencyGraph, nm: &str, ver: &str, t: TargetKind)
    -> Option<&'a GraphEntry>
{
    let n = name(nm);
    let id = vid(ver, t);
    g.find(&n, &id).map(|i| &g.nodes[i])
}

/// Empty project: no dependencies gives an empty graph and a lockfile with
/// no graph table.
#[test]
fn empty_project() {
    let m = manifest(Vec::new());
    let index = Index { packages: Vec::new() };
    let g = dependency_graph(&m, None, &index, &url()).unwrap();
    assert!(g.nodes.is_empty());
    let lf = Lockfile {
        name: pname("u/x"),
        version: v("0.1.0"),
        target: TargetKind::Luau,
        overrides: Vec::new(),
        workspace: Vec::new(),
        graph: DownloadedGraph { nodes: Vec::new() },
    };
    let text = lf.emit();
    assert_eq!(text, "name = \"u/x\"\nversion = \"0.1.0\"\ntarget = \"luau\"\n");
    assert!(!text.contains("[[graph]]"));
}

/// Single direct dependency: the highest satisfying version is pinned, the
/// container and shim land in the expected places, and the shim's require
/// path resolves into the container.
#[test]
fn single_direct_dependency() {
    let m = manifest(vec![("b".to_string(), spec("a/b", "^1.0"))]);
    let index = Index {
        packages: vec![(name("a/b"), IndexFile {
            entries: vec![
                entry("1.0.0", TargetKind::Luau, Vec::new()),
                entry("1.1.2", TargetKind::Luau, Vec::new()),
            ],
        })],
    };
    let g = dependency_graph(&m, None, &index, &url()).unwrap();
    assert_eq!(g.nodes.len(), 1);
    let node = find_node(&g, "a/b", "1.1.2", TargetKind::Luau).expect("a/b 1.1.2 pinned");
    let (alias, _, ty) = node.node.direct.as_ref().expect("a direct dependency");
    assert_eq!(alias, "b");
    assert_eq!(*ty, DependencyType::Standard);

    // Download plan: container layout and refresh-before-download.
    let mut refreshed = RefreshedSources::new();
    let plan = plan_downloads(&g, TargetKind::Luau, &mut refreshed, false, true);
    assert_eq!(plan.tasks.len(), 1);
    assert_eq!(plan.tasks[0].container,
        vec!["packages", ".pesde", "a+b", "1.1.2", "b"]
            .into_iter().map(String::from).collect::<Vec<_>>());
    assert!(plan.tasks[0].write);
    assert_eq!(plan.refreshes.len(), 1);

    // Link plan: the shim exists at packages/b.luau and resolves into the
    // container.
    let downloaded = DownloadedGraph {
        nodes: vec![DownloadedEntry {
            name: name("a/b"),
            version: vid("1.1.2", TargetKind::Luau),
            node: DownloadedDependencyGraphNode {
                target: lib_target(TargetKind::Luau),
                node: g.nodes[0].node.clone(),
            },
        }],
    };
    let sources = vec![(name("a/b"), vid("1.1.2", TargetKind::Luau),
        "export type B = number\nreturn {}\n".to_string())];
    let plan = link_plan(&downloaded, TargetKind::Luau, &sources).unwrap();
    let shim = plan.iter()
        .find(|s| s.path == vec!["packages".to_string(), "b.luau".to_string()])
        .expect("the library shim");
    assert!(shim.contents.starts_with(
        "local module = require(\"./.pesde/a+b/1.1.2/b/lib\")\n"));
    assert!(shim.contents.contains("export type B"));
    assert!(shim.contents.ends_with("return module\n"));
    // The require path resolves to the library file, relative to the shim's
    // own folder.
    let base = vec!["packages".to_string()];
    let rel: Vec<String> = ".pesde/a+b/1.1.2/b/lib".split('/').map(String::from).collect();
    let target: Vec<String> = "packages/.pesde/a+b/1.1.2/b/lib".split('/')
        .map(String::from).collect();
    assert_eq!(resolve(&base, &rel), Some(target));
}

/// Transitive dependencies are resolved and edges recorded under the
/// parent's alias.
#[test]
fn transitive_dependency() {
    let m = manifest(vec![("d".to_string(), spec("c/d", "^1"))]);
    let index = Index {
        packages: vec![
            (name("c/d"), IndexFile {
                entries: vec![entry("1.0.0", TargetKind::Luau,
                    vec![("b".to_string(), (spec("a/b", "^1"), DependencyType::Standard))])],
            }),
            (name("a/b"), IndexFile {
                entries: vec![entry("1.1.2", TargetKind::Luau, Vec::new())],
            }),
        ],
    };
    let g = dependency_graph(&m, None, &index, &url()).unwrap();
    assert_eq!(g.nodes.len(), 2);
    let parent = find_node(&g, "c/d", "1.0.0", TargetKind::Luau).unwrap();
    assert_eq!(parent.node.dependencies.len(), 1);
    let (dep_name, (dep_vid, dep_alias)) = &parent.node.dependencies[0];
    assert_eq!(dep_name.render(), "a/b");
    assert_eq!(dep_vid.render(), "1.1.2 luau");
    assert_eq!(dep_alias, "b");
    let child = find_node(&g, "a/b", "1.1.2", TargetKind::Luau).unwrap();
    assert!(child.node.direct.is_none());
}

/// Peer promotion: a transitive peer the root also declares resolves as a
/// standard dependency, appears once, and keeps its root alias.
#[test]
fn peer_promotion() {
    let m = manifest(vec![
        ("b".to_string(), spec("a/b", "^1")),
        ("d".to_string(), spec("c/d", "^1")),
    ]);
    let index = Index {
        packages: vec![
            (name("a/b"), IndexFile {
                entries: vec![entry("1.0.0", TargetKind::Luau, Vec::new())],
            }),
            (name("c/d"), IndexFile {
                entries: vec![entry("1.0.0", TargetKind::Luau,
                    vec![("b".to_string(), (spec("a/b", "^1"), DependencyType::Peer))])],
            }),
        ],
    };
    let g = dependency_graph(&m, None, &index, &url()).unwrap();
    assert_eq!(g.nodes.len(), 2);
    let b = find_node(&g, "a/b", "1.0.0", TargetKind::Luau).unwrap();
    assert_eq!(b.node.resolved_ty, DependencyType::Standard);
    let (alias, _, _) = b.node.direct.as_ref().expect("direct under its root alias");
    assert_eq!(alias, "b");
}

/// Override: the specifier at the overridden path is replaced, so the
/// graph holds the replacement instead of the declared package.
#[test]
fn override_replaces_specifier() {
    let mut m = manifest(vec![("d".to_string(), spec("c/d", "^1"))]);
    m.overrides = vec![(
        OverrideKey { path: vec!["c/d".to_string(), "a/b".to_string()] },
        spec("e/f", "^2"),
    )];
    let index = Index {
        packages: vec![
            (name("c/d"), IndexFile {
                entries: vec![entry("1.0.0", TargetKind::Luau,
                    vec![("b".to_string(), (spec("a/b", "^1"), DependencyType::Standard))])],
            }),
            (name("a/b"), IndexFile {
                entries: vec![entry("1.0.0", TargetKind::Luau, Vec::new())],
            }),
            (name("e/f"), IndexFile {
                entries: vec![entry("2.3.0", TargetKind::Luau, Vec::new())],
            }),
        ],
    };
    let g = dependency_graph(&m, None, &index, &url()).unwrap();
    assert!(find_node(&g, "e/f", "2.3.0", TargetKind::Luau).is_some());
    assert!(find_node(&g, "a/b", "1.0.0", TargetKind::Luau).is_none());
    let parent = find_node(&g, "c/d", "1.0.0", TargetKind::Luau).unwrap();
    let (dep_name, (_, dep_alias)) = &parent.node.dependencies[0];
    assert_eq!(dep_name.render(), "e/f");
    assert_eq!(dep_alias, "b");
}

/// A dependency whose only satisfying version has an incompatible target
/// fails naming both targets.
#[test]
fn incompatible_target_names_both() {
    let m = manifest(vec![("b".to_string(), spec("a/b", "^1"))]);
    let index = Index {
        packages: vec![(name("a/b"), IndexFile {
            entries: vec![entry("1.0.0", TargetKind::Lune, Vec::new())],
        })],
    };
    match dependency_graph(&m, None, &index, &url()) {
        Err(ResolveGraphError::IncompatibleTarget(nm, rq, expected, found)) => {
            assert_eq!(nm, "a/b");
            assert_eq!(rq, "^1");
            assert_eq!(expected, TargetKind::Luau);
            assert_eq!(found, TargetKind::Lune);
        },
        other => panic!("expected an incompatible-target error, got {:?}",
            other.map(|g| g.nodes.len())),
    }
    // No version satisfying the requirement at all is a different error.
    let m2 = manifest(vec![("b".to_string(), spec("a/b", "^2"))]);
    match dependency_graph(&m2, None, &index, &url()) {
        Err(ResolveGraphError::NoMatchingVersion(nm, rq)) => {
            assert_eq!(nm, "a/b");
            assert_eq!(rq, "^2");
        },
        _ => panic!("expected a no-matching-version error"),
    }
}

/// Exactly one node per (name, version id): inserting an existing key
/// keeps the first node; only a missing direct mark is promoted.
#[test]
fn insert_node_keeps_one_node_per_key() {
    let mut g = DependencyGraph::new();
    let pkg_ref = PackageRefs::Pesde(pesde::source::PesdePackageRef {
        name: name("a/b"),
        version: v("1.0.0"),
        index_url: url(),
        dependencies: Vec::new(),
        target: TargetKind::Luau,
    });
    let plain = DependencyGraphNode {
        direct: None,
        dependencies: Vec::new(),
        resolved_ty: DependencyType::Standard,
        pkg_ref: pkg_ref.clone(),
    };
    insert_node(&mut g, name("a/b"), vid("1.0.0", TargetKind::Luau), plain.clone(), false);
    assert_eq!(g.nodes.len(), 1);
    // Same key again: no second node.
    insert_node(&mut g, name("a/b"), vid("1.0.0", TargetKind::Luau), plain.clone(), false);
    assert_eq!(g.nodes.len(), 1);
    // A direct mark from a non-top-level context is dropped.
    let marked = DependencyGraphNode {
        direct: Some(("b".to_string(), spec("a/b", "^1"), DependencyType::Standard)),
        ..plain.clone()
    };
    insert_node(&mut g, name("a/b"), vid("1.0.0", TargetKind::Luau), marked.clone(), false);
    assert!(g.nodes[0].node.direct.is_none());
    // A top-level insertion promotes the missing direct mark.
    insert_node(&mut g, name("a/b"), vid("1.0.0", TargetKind::Luau), marked.clone(), true);
    assert!(g.nodes[0].node.direct.is_some());
    // A second direct mark keeps the first.
    let marked2 = DependencyGraphNode {
        direct: Some(("bee".to_string(), spec("a/b", "^1"), DependencyType::Standard)),
        ..plain
    };
    insert_node(&mut g, name("a/b"), vid("1.0.0", TargetKind::Luau), marked2, true);
    let (alias, _, _) = g.nodes[0].node.direct.as_ref().unwrap();
    assert_eq!(alias, "b");
    // A different version id is a distinct node.
    let plain2 = DependencyGraphNode {
        direct: None,
        dependencies: Vec::new(),
        resolved_ty: DependencyType::Standard,
        pkg_ref,
    };
    insert_node(&mut g, name("a/b"), vid("1.1.0", TargetKind::Luau), plain2, false);
    assert_eq!(g.nodes.len(), 2);
}

/// Prior pins are preferred: with a prior graph the old version stays even
/// when the index gained a newer one; without it the newest wins.
#[test]
fn pinning_stability() {
    let m = manifest(vec![("b".to_string(), spec("a/b", "^1.0"))]);
    let old_index = Index {
        packages: vec![(name("a/b"), IndexFile {
            entries: vec![entry("1.1.2", TargetKind::Luau, Vec::new())],
        })],
    };
    let first = dependency_graph(&m, None, &old_index, &url()).unwrap();
    let new_index = Index {
        packages: vec![(name("a/b"), IndexFile {
            entries: vec![
                entry("1.1.2", TargetKind::Luau, Vec::new()),
                entry("1.2.0", TargetKind::Luau, Vec::new()),
            ],
        })],
    };
    let pinned = dependency_graph(&m, Some(&first), &new_index, &url()).unwrap();
    assert!(find_node(&pinned, "a/b", "1.1.2", TargetKind::Luau).is_some());
    assert!(find_node(&pinned, "a/b", "1.2.0", TargetKind::Luau).is_none());
    let fresh = dependency_graph(&m, None, &new_index, &url()).unwrap();
    assert!(find_node(&fresh, "a/b", "1.2.0", TargetKind::Luau).is_some());
    // Resolving again from the pinned graph reproduces it identically.
    let again = dependency_graph(&m, Some(&pinned), &new_index, &url()).unwrap();
    let lf = |g: DependencyGraph| Lockfile {
        name: pname("u/x"),
        version: v("0.1.0"),
        target: TargetKind::Luau,
        overrides: Vec::new(),
        workspace: Vec::new(),
        graph: attach_targets(g),
    };
    assert_eq!(lf(pinned).emit(), lf(again).emit());
}

fn attach_targets(g: DependencyGraph) -> DownloadedGraph {
    DownloadedGraph {
        nodes: g.nodes.into_iter().map(|e| {
            let t = e.version.target;
            DownloadedEntry {
                name: e.name,
                version: e.version,
                node: DownloadedDependencyGraphNode { target: lib_target(t), node: e.node },
            }
        }).collect(),
    }
}

/// Every direct mark in a resolved graph comes from the manifest.
#[test]
fn direct_marks_come_from_the_root() {
    let m = manifest(vec![
        ("b".to_string(), spec("a/b", "^1")),
        ("d".to_string(), spec("c/d", "^1")),
    ]);
    let index = Index {
        packages: vec![
            (name("a/b"), IndexFile {
                entries: vec![entry("1.0.0", TargetKind::Luau, Vec::new())],
            }),
            (name("c/d"), IndexFile {
                entries: vec![entry("1.0.0", TargetKind::Luau,
                    vec![("b".to_string(), (spec("a/b", "^1"), DependencyType::Standard))])],
            }),
        ],
    };
    let g = dependency_graph(&m, None, &index, &url()).unwrap();
    for e in &g.nodes {
        if let Some((alias, s, ty)) = &e.node.direct {
            let declared = m.dependencies.iter().any(|(a, ds)| {
                a == alias && pesde::lockfile::render_specifier(ds)
                    == pesde::lockfile::render_specifier(s)
                    && *ty == DependencyType::Standard
            });
            assert!(declared, "direct mark {alias} not declared by the manifest");
        }
    }
}

/// The lockfile round trip: a parsed lockfile re-serializes to its input
/// bytes, and the serialized document is valid TOML.
#[test]
fn lockfile_round_trip() {
    let m = manifest(vec![("d".to_string(), spec("c/d", "^1"))]);
    let index = Index {
        packages: vec![
            (name("c/d"), IndexFile {
                entries: vec![entry("1.0.0", TargetKind::Luau,
                    vec![("b".to_string(), (spec("a/b", "^1"), DependencyType::Dev))])],
            }),
            (name("a/b"), IndexFile {
                entries: vec![entry("1.1.2", TargetKind::Luau, Vec::new())],
            }),
        ],
    };
    let g = dependency_graph(&m, None, &index, &url()).unwrap();
    let lf = Lockfile {
        name: pname("u/x"),
        version: v("0.1.0"),
        target: TargetKind::Luau,
        overrides: vec![(
            OverrideKey { path: vec!["c/d".to_string(), "a/b".to_string()] },
            spec("e/f", "^2"),
        )],
        workspace: vec![(pname("u/y"), vec![(TargetKind::Luau, "packages/y".to_string())])],
        graph: attach_targets(g),
    };
    let text = lf.emit();
    let parsed = Lockfile::parse(&text).expect("the serializer's output parses");
    assert_eq!(parsed.emit(), text);
    // Not canonical: reject.
    assert!(Lockfile::parse(&format!(" {text}")).is_none());
    assert!(Lockfile::parse(&text.replace("\"u/x\"", "\"u/x\"  ")).is_none());
    // The document is TOML.
    let value: Result<toml::Value, _> = toml::from_str(&text);
    assert!(value.is_ok(), "lockfile is not valid TOML: {text}");
}

/// `--locked` with differing overrides or target aborts before any network
/// work; an unlocked run silently drops the stale lockfile.
#[test]
fn locked_detects_stale_lockfiles() {
    let m = manifest(Vec::new());
    let fresh = Lockfile {
        name: pname("u/x"),
        version: v("0.1.0"),
        target: TargetKind::Luau,
        overrides: Vec::new(),
        workspace: Vec::new(),
        graph: DownloadedGraph { nodes: Vec::new() },
    };
    assert!(lockfile_up_to_date(&m, &fresh));
    assert!(matches!(prior_lockfile_decision(true, &m, None), Err(InstallAbort::OutOfSync)));

    // Different overrides.
    let mut with_override = manifest(Vec::new());
    with_override.overrides = vec![(
        OverrideKey { path: vec!["c/d".to_string(), "a/b".to_string()] },
        spec("e/f", "^2"),
    )];
    assert!(!lockfile_up_to_date(&with_override, &fresh));
    assert!(!lockfile_usable(&with_override, &fresh));
    assert!(matches!(prior_lockfile_decision(true, &with_override, Some(clone_lockfile(&fresh))),
        Err(InstallAbort::OutOfSync)));
    assert!(matches!(prior_lockfile_decision(false, &with_override, Some(clone_lockfile(&fresh))),
        Ok(None)));

    // Different target: the manifest moved from luau to lune.
    let mut lune = manifest(Vec::new());
    lune.target = Target {
        kind: TargetKind::Lune,
        lib_path: None,
        bin_path: None,
        build_files: Vec::new(),
    };
    assert!(!lockfile_up_to_date(&lune, &fresh));
    assert!(matches!(prior_lockfile_decision(true, &lune, Some(clone_lockfile(&fresh))),
        Err(InstallAbort::OutOfSync)));

    // A changed requirement is caught too.
    let declared = manifest(vec![("b".to_string(), spec("a/b", "^1.1"))]);
    assert!(!lockfile_up_to_date(&declared, &fresh));
}

fn clone_lockfile(lf: &Lockfile) -> Lockfile {
    Lockfile::parse(&lf.emit()).unwrap()
}

/// `prod` filters development nodes from disk materialization and linking,
/// but the in-memory graph written to the lockfile keeps them.
#[test]
fn prod_filters_dev_nodes_from_disk_only() {
    let m = {
        let mut m = manifest(vec![("b".to_string(), spec("a/b", "^1"))]);
        m.dev_dependencies = vec![("t".to_string(), spec("q/tool", "^1"))];
        m
    };
    let index = Index {
        packages: vec![
            (name("a/b"), IndexFile {
                entries: vec![entry("1.0.0", TargetKind::Luau, Vec::new())],
            }),
            (name("q/tool"), IndexFile {
                entries: vec![entry("1.0.0", TargetKind::Luau, Vec::new())],
            }),
        ],
    };
    let g = dependency_graph(&m, None, &index, &url()).unwrap();
    assert_eq!(g.nodes.len(), 2);

    // Write flags: in prod mode the dev node is downloaded but not written.
    let mut refreshed = RefreshedSources::new();
    let plan = plan_downloads(&g, TargetKind::Luau, &mut refreshed, true, true);
    let dev_task = plan.tasks.iter().find(|t| t.name.render() == "q/tool").unwrap();
    assert!(!dev_task.write);
    let std_task = plan.tasks.iter().find(|t| t.name.render() == "a/b").unwrap();
    assert!(std_task.write);

    // The filtered graph drops the dev node; the unfiltered one keeps it.
    let downloaded = attach_targets(g);
    assert_eq!(downloaded.nodes.len(), 2);
    let filtered = filter_prod(downloaded, true);
    assert_eq!(filtered.nodes.len(), 1);
    assert_eq!(filtered.nodes[0].name.render(), "a/b");

    // Stripping a downloaded graph keeps every node for the next run.
    let m2 = manifest(Vec::new());
    let _ = m2;
    let full = {
        let g2 = dependency_graph(&m, None, &index, &url()).unwrap();
        attach_targets(g2)
    };
    let prior = strip_downloaded(full);
    assert_eq!(prior.nodes.len(), 2);
}

/// Binary package: the alias gets a `.bin.luau` trampoline next to the
/// packages folder.
#[test]
fn binary_package_gets_a_trampoline() {
    let m = manifest(vec![("cli".to_string(), spec("t/cli", "^1"))]);
    let bin_target = Target {
        kind: TargetKind::Luau,
        lib_path: None,
        bin_path: Some(vec!["main".to_string()]),
        build_files: Vec::new(),
    };
    let index = Index {
        packages: vec![(name("t/cli"), IndexFile {
            entries: vec![(vid("1.0.0", TargetKind::Luau), IndexFileEntry {
                target: bin_target.clone(),
                published_at: 1_700_000_000,
                description: None,
                dependencies: Vec::new(),
            })],
        })],
    };
    let g = dependency_graph(&m, None, &index, &url()).unwrap();
    let downloaded = DownloadedGraph {
        nodes: vec![DownloadedEntry {
            name: name("t/cli"),
            version: vid("1.0.0", TargetKind::Luau),
            node: DownloadedDependencyGraphNode {
                target: bin_target,
                node: g.nodes[0].node.clone(),
            },
        }],
    };
    let plan = link_plan(&downloaded, TargetKind::Luau, &Vec::new()).unwrap();
    let shim = plan.iter()
        .find(|s| s.path == vec!["packages".to_string(), "cli.bin.luau".to_string()])
        .expect("the binary shim");
    assert!(shim.contents.contains("return require(\"./.pesde/t+cli/1.0.0/cli/main\")"));
    assert!(shim.contents.starts_with("_G.PESDE_ROOT = \"packages/.pesde/t+cli/1.0.0/cli\""));
}

/// Transitive linkage shims are written next to the parent's container.
#[test]
fn transitive_linkage_shims() {
    let m = manifest(vec![("d".to_string(), spec("c/d", "^1"))]);
    let index = Index {
        packages: vec![
            (name("c/d"), IndexFile {
                entries: vec![entry("1.0.0", TargetKind::Luau,
                    vec![("b".to_string(), (spec("a/b", "^1"), DependencyType::Standard))])],
            }),
            (name("a/b"), IndexFile {
                entries: vec![entry("1.1.2", TargetKind::Luau, Vec::new())],
            }),
        ],
    };
    let g = dependency_graph(&m, None, &index, &url()).unwrap();
    let downloaded = attach_targets(g);
    let sources = vec![
        (name("c/d"), vid("1.0.0", TargetKind::Luau), "return {}\n".to_string()),
        (name("a/b"), vid("1.1.2", TargetKind::Luau), "return {}\n".to_string()),
    ];
    let plan = link_plan(&downloaded, TargetKind::Luau, &sources).unwrap();
    // c/d's container gets a shim for its dependency alias `b`.
    let expected: Vec<String> = "packages/.pesde/c+d/1.0.0/d/packages/b.luau".split('/')
        .map(String::from).collect();
    assert!(plan.iter().any(|s| s.path == expected),
        "missing linkage shim; planned: {:?}",
        plan.iter().map(|s| s.path.join("/")).collect::<Vec<_>>());
}

/// A missing transitive node fails the linker with the pair's identity.
#[test]
fn linker_reports_missing_dependency() {
    let mut node = DependencyGraphNode {
        direct: None,
        dependencies: vec![(name("a/b"), (vid("1.0.0", TargetKind::Luau), "b".to_string()))],
        resolved_ty: DependencyType::Standard,
        pkg_ref: PackageRefs::Pesde(pesde::source::PesdePackageRef {
            name: name("c/d"),
            version: v("1.0.0"),
            index_url: url(),
            dependencies: Vec::new(),
            target: TargetKind::Luau,
        }),
    };
    node.direct = None;
    let downloaded = DownloadedGraph {
        nodes: vec![DownloadedEntry {
            name: name("c/d"),
            version: vid("1.0.0", TargetKind::Luau),
            node: DownloadedDependencyGraphNode {
                target: lib_target(TargetKind::Luau),
                node,
            },
        }],
    };
    match link_plan(&downloaded, TargetKind::Luau, &Vec::new()) {
        Err(pesde::linker::LinkingError::DependencyNotFound(nm, id)) => {
            assert_eq!(nm, "a/b");
            assert_eq!(id, "1.0.0 luau");
        },
        _ => panic!("expected a missing-dependency error"),
    }
}

/// Duplicate aliases across the dependency tables are rejected.
#[test]
fn duplicate_alias_is_rejected() {
    let mut m = manifest(vec![("b".to_string(), spec("a/b", "^1"))]);
    m.dev_dependencies = vec![("b".to_string(), spec("q/tool", "^1"))];
    let index = Index { packages: Vec::new() };
    assert!(matches!(dependency_graph(&m, None, &index, &url()),
        Err(ResolveGraphError::AliasConflict(a)) if a == "b"));
}

/// The search index describes the highest published version.
#[test]
fn search_uses_latest_entry() {
    let file = IndexFile {
        entries: vec![
            entry("1.0.0", TargetKind::Luau, Vec::new()),
            entry("1.4.0", TargetKind::Luau, Vec::new()),
            entry("1.2.0", TargetKind::Luau, Vec::new()),
        ],
    };
    let best = latest_entry(&file).unwrap();
    assert_eq!(best.0.render(), "1.4.0 luau");
    assert!(latest_entry(&IndexFile { entries: Vec::new() }).is_none());
    let fields = pesde::registry::search_doc_fields(&name("a/b"), &file.entries[1].1);
    assert_eq!(fields.0, "a/b");
    assert_eq!(fields.1, "a");
    assert_eq!(fields.2, "b");
    assert_eq!(fields.3, "");
    assert_eq!(fields.4, 1_700_000_000);
}

/// Manifest edits keep user formatting: adding a patches entry through a
/// document model leaves the untouched parts byte-identical.
#[test]
fn manifest_edit_preserves_order() {
    let original = "name = \"u/x\"\nversion = \"0.1.0\"\n\n[target]\nenvironment = \"luau\"\n\n[dependencies]\nb = { name = \"a/b\", version = \"^1.0\" }\n";
    let mut doc: toml_edit::DocumentMut = original.parse().unwrap();
    let file = patch_entry("a/b", "1.0.0 luau");
    doc["patches"] = toml_edit::Item::Table(toml_edit::Table::new());
    doc["patches"]["a/b"]["1.0.0 luau"] = toml_edit::value(file);
    let edited = doc.to_string();
    assert!(edited.starts_with(original.trim_end_matches('\n')) || edited.starts_with(original));
    assert!(edited.contains("patches"));
}

fn patch_entry(nm: &str, id: &str) -> String {
    let n = name(nm);
    let parsed = VersionId::parse(id).unwrap();
    let file = pesde::cli::PatchCommitCommand::patch_file_name(&n, &parsed);
    pesde::cli::PatchCommitCommand::patch_entry_value(&file)
}

/// Nodes publishing build files get a sync-config job on their container;
/// a missing script is carried as such for the driver to warn about.
#[test]
fn sync_config_jobs_cover_build_files() {
    let roblox_target = Target {
        kind: TargetKind::Roblox,
        lib_path: Some(vec!["init".to_string()]),
        bin_path: None,
        build_files: vec!["default.project.json".to_string()],
    };
    let downloaded = DownloadedGraph {
        nodes: vec![DownloadedEntry {
            name: name("a/b"),
            version: vid("1.0.0", TargetKind::Roblox),
            node: DownloadedDependencyGraphNode {
                target: roblox_target,
                node: pesde::graph::DependencyGraphNode {
                    direct: None,
                    dependencies: Vec::new(),
                    resolved_ty: DependencyType::Standard,
                    pkg_ref: PackageRefs::Pesde(pesde::source::PesdePackageRef {
                        name: name("a/b"),
                        version: v("1.0.0"),
                        index_url: url(),
                        dependencies: Vec::new(),
                        target: TargetKind::Roblox,
                    }),
                },
            },
        }],
    };
    let script = "scripts/sync.luau".to_string();
    let jobs = pesde::linker::sync_config_jobs(&downloaded, TargetKind::Roblox, Some(&script));
    assert_eq!(jobs.len(), 1);
    assert_eq!(jobs[0].script.as_deref(), Some("scripts/sync.luau"));
    assert_eq!(jobs[0].container,
        vec!["packages", ".pesde", "a+b", "1.0.0", "b"]
            .into_iter().map(String::from).collect::<Vec<_>>());
    assert_eq!(jobs[0].build_files, vec!["default.project.json".to_string()]);
    let none = pesde::linker::sync_config_jobs(&downloaded, TargetKind::Roblox, None);
    assert!(none[0].script.is_none());
    // A target without build files plans no job.
    let plain = DownloadedGraph {
        nodes: vec![DownloadedEntry {
            name: name("c/d"),
            version: vid("1.0.0", TargetKind::Luau),
            node: DownloadedDependencyGraphNode {
                target: lib_target(TargetKind::Luau),
                node: downloaded.nodes[0].node.node.clone(),
            },
        }],
    };
    assert!(pesde::linker::sync_config_jobs(&plain, TargetKind::Luau, Some(&script)).is_empty());
}

/// The content store writes equal bytes once, whatever digests they get.
#[test]
fn cas_deduplicates_by_content() {
    let mut store = pesde::cas::CasStore::new();
    let h1 = store.store(b"same bytes".to_vec());
    let h2 = store.store(b"same bytes".to_vec());
    let h3 = store.store(b"same bytes".to_vec());
    assert_eq!(h1, h2);
    assert_eq!(h2, h3);
    assert_eq!(store.entries.len(), 1);
    assert_eq!(store.materialize(&h1).unwrap(), b"same bytes");
}
