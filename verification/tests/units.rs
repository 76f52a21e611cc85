//! Unit tests for names, versions, requirements, targets, paths, shims and
//! the content store.

use pesde::cas::CasStore;
use pesde::cli::{
    AccessTokenError, AccessTokenResponse, DeviceFlowOutcome, DeviceFlowState, SelfUpgradeCommand,
    PatchCommitCommand, device_flow_step, device_flow_tick,
};
use pesde::linker::{
    bin_link_file, generate_bin_linking_module, generate_lib_linking_module, get_file_types,
    get_lib_require_path, script_contents,
};
use pesde::names::{PackageName, PackageNames};
use pesde::paths::{relativize, render_rel, resolve, join_segments};
use pesde::reqs::VersionReq;
use pesde::target::TargetKind;
use pesde::version::{Version, VersionId, u64_to_string};

fn v(s: &str) -> Version {
    Version::parse(s).unwrap()
}

fn req(s: &str) -> VersionReq {
    VersionReq::parse(s).unwrap()
}

fn segs(parts: &[&str]) -> Vec<String> {
    parts.iter().map(|p| p.to_string()).collect()
}

#[test]
fn target_tags_round_trip() {
    for t in TargetKind::variants() {
        let tag = t.as_str();
        assert_eq!(TargetKind::from_str(tag), Some(t));
    }
    assert_eq!(TargetKind::from_str("luaus"), None);
    assert_eq!(TargetKind::Roblox.as_str(), "roblox");
    assert_eq!(TargetKind::RobloxServer.as_str(), "roblox_server");
}

#[test]
fn packages_folder_matrix() {
    assert_eq!(TargetKind::Luau.packages_folder(&TargetKind::Luau), "packages");
    assert_eq!(TargetKind::Luau.packages_folder(&TargetKind::Lune), "lune_packages");
    assert_eq!(TargetKind::Roblox.packages_folder(&TargetKind::RobloxServer),
        "roblox_server_packages");
    assert_eq!(TargetKind::Lune.packages_folder(&TargetKind::Luau), "luau_packages");
}

#[test]
fn names_parse_render_escape() {
    let n = PackageName::from_str("acme/router").unwrap();
    assert_eq!(n.render(), "acme/router");
    assert_eq!(n.escaped(), "acme+router");
    let back = PackageName::from_escaped("acme+router").unwrap();
    assert_eq!(back.render(), "acme/router");
    assert!(PackageName::from_str("acme").is_err());
    assert!(PackageName::from_str("Acme/router").is_err());
    assert!(PackageName::from_str("acme/rou/ter").is_err());
    assert!(PackageName::from_str("/router").is_err());
    assert!(PackageName::from_str("acme/").is_err());
}

#[test]
fn version_parse_is_canonical() {
    assert_eq!(v("1.2.3").render(), "1.2.3");
    assert_eq!(v("1.2.3-alpha.1").render(), "1.2.3-alpha.1");
    assert_eq!(v("1.2.3+build.5").render(), "1.2.3+build.5");
    assert_eq!(v("1.2.3-rc.1+build").render(), "1.2.3-rc.1+build");
    assert!(Version::parse("01.2.3").is_none());
    assert!(Version::parse("1.2").is_none());
    assert!(Version::parse("1.2.3-").is_none());
    assert!(Version::parse("1.2.3-a..b").is_none());
    assert!(Version::parse("1.2.3-01").is_none());
    assert!(Version::parse("1.2.3 ").is_none());
}

#[test]
fn version_precedence() {
    assert!(v("1.0.0").lt(&v("2.0.0")));
    assert!(v("2.0.0").lt(&v("2.1.0")));
    assert!(v("2.1.0").lt(&v("2.1.1")));
    // every pre-release comes before the release
    assert!(v("1.0.0-alpha").lt(&v("1.0.0")));
    // the semver ordering chain
    assert!(v("1.0.0-alpha").lt(&v("1.0.0-alpha.1")));
    assert!(v("1.0.0-alpha.1").lt(&v("1.0.0-alpha.beta")));
    assert!(v("1.0.0-alpha.beta").lt(&v("1.0.0-beta")));
    assert!(v("1.0.0-beta").lt(&v("1.0.0-beta.2")));
    assert!(v("1.0.0-beta.2").lt(&v("1.0.0-beta.11")));
    assert!(v("1.0.0-beta.11").lt(&v("1.0.0-rc.1")));
    assert!(!v("1.0.0").lt(&v("1.0.0")));
    // build metadata is ignored
    assert!(v("1.0.0+a").precedence_eq(&v("1.0.0+b")));
}

#[test]
fn decimal_rendering() {
    assert_eq!(u64_to_string(0), "0");
    assert_eq!(u64_to_string(7), "7");
    assert_eq!(u64_to_string(1234), "1234");
    assert_eq!(u64_to_string(u64::MAX), "18446744073709551615");
}

#[test]
fn requirement_matching() {
    let caret = req("^1.0");
    assert!(caret.matches(&v("1.0.0")));
    assert!(caret.matches(&v("1.1.2")));
    assert!(!caret.matches(&v("2.0.0")));
    assert!(!caret.matches(&v("0.9.0")));
    // a bare requirement means caret
    assert_eq!(req("1.0").render(), "^1.0");
    let zero = req("^0.2.3");
    assert!(zero.matches(&v("0.2.5")));
    assert!(!zero.matches(&v("0.3.0")));
    let tilde = req("~1.2.3");
    assert!(tilde.matches(&v("1.2.9")));
    assert!(!tilde.matches(&v("1.3.0")));
    let exact = req("=1.2.3");
    assert!(exact.matches(&v("1.2.3")));
    assert!(!exact.matches(&v("1.2.4")));
    let range = req(">=1.2, <2");
    assert!(range.matches(&v("1.5.0")));
    assert!(!range.matches(&v("2.0.0")));
    let wild = req("1.*");
    assert!(wild.matches(&v("1.9.9")));
    assert!(!wild.matches(&v("2.0.0")));
    let any = req("*");
    assert!(any.matches(&v("3.4.5")));
}

#[test]
fn requirement_prerelease_gating() {
    let plain = req("^1.0");
    assert!(!plain.matches(&v("1.1.0-alpha")));
    let pre = req(">=1.1.0-alpha");
    assert!(pre.matches(&v("1.1.0-beta")));
    let any = req("*");
    assert!(!any.matches(&v("1.0.0-rc.1")));
}

#[test]
fn version_id_renders() {
    let id = VersionId { version: v("1.1.2"), target: TargetKind::Luau };
    assert_eq!(id.render(), "1.1.2 luau");
    assert_eq!(id.escaped(), "1.1.2+luau");
    let back = VersionId::parse("1.1.2 luau").unwrap();
    assert!(back.eq_id(&id));
    let esc = VersionId::from_escaped("1.1.2+luau").unwrap();
    assert!(esc.eq_id(&id));
    assert!(VersionId::parse("1.1.2 luaus").is_none());
}

#[test]
fn relative_paths_round_trip() {
    let base = segs(&["packages"]);
    let target = segs(&["packages", ".pesde", "a+b", "1.1.2", "b", "lib"]);
    let rel = relativize(&base, &target);
    assert_eq!(rel, segs(&[".pesde", "a+b", "1.1.2", "b", "lib"]));
    assert_eq!(resolve(&base, &rel), Some(target.clone()));
    assert_eq!(render_rel(&rel), "./.pesde/a+b/1.1.2/b/lib");

    let deep_base = segs(&["packages", ".pesde", "a+b", "1.1.2", "b", "lune_packages"]);
    let other = segs(&["lune_packages", ".pesde", "c+d", "1.0.0", "d", "init"]);
    let rel2 = relativize(&deep_base, &other);
    assert_eq!(resolve(&deep_base, &rel2), Some(other));
    assert!(render_rel(&rel2).starts_with("../"));
    assert_eq!(join_segments(&segs(&["a", "b", "c"])), "a/b/c");
}

#[test]
fn lib_shim_text() {
    let types = vec!["export type X = number".to_string()];
    let shim = generate_lib_linking_module("./.pesde/a+b/1.1.2/b/lib", &types);
    assert_eq!(
        shim,
        "local module = require(\"./.pesde/a+b/1.1.2/b/lib\")\nexport type X = number\nreturn module\n"
    );
    let empty = generate_lib_linking_module("./x", &Vec::new());
    assert_eq!(empty, "local module = require(\"./x\")\nreturn module\n");
}

#[test]
fn bin_shim_text() {
    let shim = generate_bin_linking_module("packages/.pesde/t+cli/1.0.0/cli",
        "./.pesde/t+cli/1.0.0/cli/main");
    assert_eq!(
        shim,
        "_G.PESDE_ROOT = \"packages/.pesde/t+cli/1.0.0/cli\"\nreturn require(\"./.pesde/t+cli/1.0.0/cli/main\")\n"
    );
}

#[test]
fn launcher_probes_every_packages_folder() {
    // The launcher's folder list must enumerate, in sorted order, every
    // folder any (project target, dependency target) pair can produce.
    let mut folders: Vec<String> = Vec::new();
    for a in TargetKind::variants() {
        for b in TargetKind::variants() {
            let f = a.packages_folder(&b);
            if !folders.contains(&f) {
                folders.push(f);
            }
        }
    }
    folders.sort();
    let quoted: Vec<String> = folders.iter().map(|f| format!("\"{}\"", f)).collect();
    let list = quoted.join(", ");
    let launcher = bin_link_file("cli");
    assert!(launcher.contains(&format!("in {{ {} }} do", list)));
    assert!(launcher.starts_with("#!/usr/bin/env -S lune run\n"));
    assert!(launcher.contains("/cli.bin.luau"));
    assert!(launcher.contains("binary `cli` not found"));
    assert!(launcher.contains("pesde.toml"));
}

#[test]
fn script_stub_text() {
    let stub = script_contents("lune/rojo/sync.luau");
    assert_eq!(
        stub,
        "local process = require(\"@lune/process\")\nlocal home_dir = process.env.HOME or process.env.userprofile\n\nrequire(home_dir .. \"/.pesde/scripts/lune/rojo/sync.luau\")\n"
    );
}

#[test]
fn luau_type_extraction() {
    let src = "export type Point = { x: number, y: number }\nlocal a = 1\nreturn { a = a }\n";
    let types = get_file_types(src).unwrap();
    assert_eq!(types.len(), 1);
    assert!(types[0].contains("export type Point"));
    let none = get_file_types("return 1\n").unwrap();
    assert!(none.is_empty());
    assert!(get_file_types("local = = =").is_err());
}

#[test]
fn require_path_reaches_library() {
    let base = segs(&["packages"]);
    let container = segs(&["packages", ".pesde", "a+b", "1.1.2", "b"]);
    let lib = segs(&["lib"]);
    let rel = get_lib_require_path(&base, &container, &lib);
    let mut target = container.clone();
    target.extend(lib);
    assert_eq!(resolve(&base, &rel), Some(target));
}

#[test]
fn cas_store_and_materialize() {
    let mut store = CasStore::new();
    let h1 = store.store(b"hello".to_vec());
    let h2 = store.store(b"hello".to_vec());
    assert_eq!(h1, h2);
    assert_eq!(store.entries.len(), 1);
    let h3 = store.store(b"world".to_vec());
    assert_ne!(h1, h3);
    assert_eq!(store.materialize(&h1).unwrap(), b"hello");
    assert_eq!(store.materialize(&h3).unwrap(), b"world");
    assert!(store.materialize("0000000").is_none());
}

#[test]
fn cas_path_fanout() {
    let p = pesde::cas::cas_path("abcdef99");
    assert_eq!(p, segs(&["cas", "ab", "cd", "ef99"]));
}

#[test]
fn hash_is_deterministic_within_a_run() {
    let a = pesde::source::hash(&b"contents".to_vec());
    let b = pesde::source::hash(&b"contents".to_vec());
    assert_eq!(a, b);
    assert!(!a.is_empty());
}

#[test]
fn device_flow_transitions() {
    let s = DeviceFlowState { time_left: 900, interval: 5 };
    let ticked = device_flow_tick(s);
    assert_eq!(ticked.time_left, 895);
    match device_flow_step(ticked, AccessTokenResponse::Success("tok".to_string())) {
        DeviceFlowOutcome::Done(t) => assert_eq!(t, "tok"),
        _ => panic!("expected the token"),
    }
    match device_flow_step(ticked,
        AccessTokenResponse::Error(AccessTokenError::AuthorizationPending)) {
        DeviceFlowOutcome::Poll(next) => assert_eq!(next, ticked),
        _ => panic!("expected another poll"),
    }
    match device_flow_step(ticked, AccessTokenResponse::Error(AccessTokenError::SlowDown(10))) {
        DeviceFlowOutcome::Poll(next) => {
            assert_eq!(next.interval, 10);
            assert_eq!(next.time_left, 895);
        },
        _ => panic!("expected another poll"),
    }
    let out = device_flow_step(DeviceFlowState { time_left: 0, interval: 5 },
        AccessTokenResponse::Error(AccessTokenError::AuthorizationPending));
    assert!(matches!(out, DeviceFlowOutcome::Expired));
    let denied = device_flow_step(ticked,
        AccessTokenResponse::Error(AccessTokenError::AccessDenied));
    assert!(matches!(denied, DeviceFlowOutcome::Denied));
}

#[test]
fn self_upgrade_decision() {
    let cmd = SelfUpgradeCommand { use_cached: false };
    assert!(cmd.needs_upgrade(&v("0.5.0"), &v("0.5.1")));
    assert!(!cmd.needs_upgrade(&v("0.5.1"), &v("0.5.1")));
    assert!(!cmd.needs_upgrade(&v("0.6.0"), &v("0.5.9")));
}

#[test]
fn patch_commit_names() {
    let name = PackageNames::from_str("a/b").unwrap();
    let id = VersionId { version: v("1.1.2"), target: TargetKind::Luau };
    let file = PatchCommitCommand::patch_file_name(&name, &id);
    assert_eq!(file, "a+b-1.1.2+luau.patch");
    assert_eq!(PatchCommitCommand::patch_entry_value(&file), "patches/a+b-1.1.2+luau.patch");
}

#[test]
fn refspec_substitution() {
    assert_eq!(pesde::strutil::replace_char("refs/remotes/origin/*", '*', "main"),
        "refs/remotes/origin/main");
    assert_eq!(pesde::strutil::replace_char("a*b*c", '*', "xy"), "axybxyc");
    assert_eq!(pesde::strutil::replace_char("", '*', "main"), "");
}

#[test]
fn short_digests_get_a_flat_store_path() {
    assert_eq!(pesde::cas::cas_path("abc"),
        vec!["cas".to_string(), "abc".to_string()]);
    assert_eq!(pesde::cas::cas_path("abcdef99"),
        segs(&["cas", "ab", "cd", "ef99"]));
}
