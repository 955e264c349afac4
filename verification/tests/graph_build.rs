//! End-to-end builds of the crate-graph snapshot.

use project_model::{
    BuildError, BuildScriptOutput, CargoWorkspace, CfgDiff, CfgFlag, CfgOverrides, CrateGraphJson,
    DepKind, Edition, FileLoader, PackageData, PackageDependency, PackageMetadata, ProcMacroLoader,
    Sysroot, SysrootCrateData, TargetData, TargetKind, VersionData, WorkspaceBuildScripts,
};

fn version() -> VersionData {
    VersionData {
        full: "1.0.0".to_string(),
        major: "1".to_string(),
        minor: "0".to_string(),
        patch: "0".to_string(),
        pre: String::new(),
    }
}

fn pkg(
    name: &str,
    targets: Vec<usize>,
    deps: Vec<PackageDependency>,
    rustc_private: bool,
) -> PackageData {
    PackageData {
        name: name.to_string(),
        version: version(),
        manifest_dir: format!("/ws/{}", name),
        edition: Edition::Edition2018,
        targets,
        dependencies: deps,
        features: Vec::new(),
        active_features: Vec::new(),
        metadata: PackageMetadata { rustc_private },
    }
}

fn dep(pkg: usize, name: &str, kind: DepKind) -> PackageDependency {
    PackageDependency { pkg, name: name.to_string(), kind }
}

fn tgt(name: &str, root: &str, kind: TargetKind) -> TargetData {
    TargetData { name: name.to_string(), root: root.to_string(), kind }
}

fn loader(paths: &[&str]) -> FileLoader {
    let entries = paths
        .iter()
        .enumerate()
        .map(|(i, p)| (p.to_string(), 100 + i as u32))
        .collect();
    FileLoader { entries }
}

fn no_macros() -> ProcMacroLoader {
    ProcMacroLoader { entries: Vec::new() }
}

fn node_id(g: &CrateGraphJson, name: &str) -> u32 {
    g.roots
        .iter()
        .position(|r| r.display_name.as_deref() == Some(name))
        .unwrap() as u32
}

fn count_nodes(g: &CrateGraphJson, name: &str) -> usize {
    g.roots
        .iter()
        .filter(|r| r.display_name.as_deref() == Some(name))
        .count()
}

fn has_edge(g: &CrateGraphJson, from: u32, name: &str, to: u32) -> bool {
    g.deps
        .iter()
        .any(|d| d.from == from && d.name == name && d.to == to)
}

fn count_edges_named(g: &CrateGraphJson, from: u32, name: &str) -> usize {
    g.deps
        .iter()
        .filter(|d| d.from == from && d.name == name)
        .count()
}

fn build_a_b() -> CrateGraphJson {
    let cargo = CargoWorkspace {
        packages: vec![
            pkg("a", vec![0], vec![dep(1, "b", DepKind::Normal)], false),
            pkg("b", vec![1], vec![], false),
        ],
        targets: vec![
            tgt("a", "/ws/a/src/lib.rs", TargetKind::Lib),
            tgt("b", "/ws/b/src/lib.rs", TargetKind::Lib),
        ],
    };
    let sysroot = Sysroot {
        crates: vec![
            SysrootCrateData {
                name: "core".to_string(),
                root: "/sysroot/core.rs".to_string(),
                deps: vec![],
            },
            SysrootCrateData {
                name: "std".to_string(),
                root: "/sysroot/std.rs".to_string(),
                deps: vec![0],
            },
        ],
        public_deps: vec![("core".to_string(), 0), ("std".to_string(), 1)],
        proc_macro: None,
    };
    let load = loader(&[
        "/ws/a/src/lib.rs",
        "/ws/b/src/lib.rs",
        "/sysroot/core.rs",
        "/sysroot/std.rs",
    ]);
    CrateGraphJson::cargo_to_json(
        &Vec::new(),
        &CfgOverrides::default(),
        &no_macros(),
        &load,
        &cargo,
        &WorkspaceBuildScripts::default(),
        Some(&sysroot),
        &None,
    )
    .unwrap()
}

#[test]
fn end_to_end_two_packages_with_sysroot() {
    let g = build_a_b();
    assert_eq!(g.roots.len(), 4);
    for name in ["core", "std", "a", "b"] {
        assert_eq!(count_nodes(&g, name), 1);
    }
    let core = node_id(&g, "core");
    let std_id = node_id(&g, "std");
    let a = node_id(&g, "a");
    let b = node_id(&g, "b");
    assert!(has_edge(&g, a, "b", b));
    assert!(has_edge(&g, a, "core", core));
    assert!(has_edge(&g, a, "std", std_id));
    assert!(has_edge(&g, b, "core", core));
    assert!(has_edge(&g, b, "std", std_id));
    assert!(has_edge(&g, std_id, "core", core));
    assert_eq!(g.deps.len(), 6);
}

#[test]
fn every_edge_index_is_within_the_node_count() {
    let g = build_a_b();
    let n = g.roots.len() as u32;
    for d in &g.deps {
        assert!(d.from < n);
        assert!(d.to < n);
    }
}

#[test]
fn potential_configuration_covers_active_configuration() {
    let g = build_a_b();
    for root in &g.roots {
        for (key, values) in &root.cfg_options {
            let pot = root
                .potential_cfg_options
                .iter()
                .find(|(k, _)| k == key)
                .unwrap_or_else(|| panic!("key {} missing from potential set", key));
            for v in values {
                assert!(pot.1.contains(v));
            }
        }
    }
}

#[test]
fn workspace_crates_carry_the_fixed_atoms_but_sysroot_crates_do_not() {
    let g = build_a_b();
    let a = node_id(&g, "a") as usize;
    let core = node_id(&g, "core") as usize;
    assert!(g.roots[a].cfg_options.iter().any(|(k, _)| k == "test"));
    assert!(g.roots[a]
        .cfg_options
        .iter()
        .any(|(k, _)| k == "debug_assertions"));
    assert!(!g.roots[core].cfg_options.iter().any(|(k, _)| k == "test"));
}

#[test]
fn build_script_environment_reaches_every_node_of_the_package() {
    let cargo = CargoWorkspace {
        packages: vec![pkg("m", vec![0, 1], vec![], false)],
        targets: vec![
            tgt("m", "/ws/m/src/lib.rs", TargetKind::Lib),
            tgt("build-script-build", "/ws/m/build.rs", TargetKind::BuildScript),
        ],
    };
    let build_scripts = WorkspaceBuildScripts {
        outputs: vec![Some(BuildScriptOutput {
            cfgs: Vec::new(),
            envs: vec![("FOO".to_string(), "bar".to_string())],
            proc_macro_dylib_path: None,
        })],
    };
    let load = loader(&["/ws/m/src/lib.rs", "/ws/m/build.rs"]);
    let g = CrateGraphJson::cargo_to_json(
        &Vec::new(),
        &CfgOverrides::default(),
        &no_macros(),
        &load,
        &cargo,
        &build_scripts,
        None,
        &None,
    )
    .unwrap();
    assert_eq!(g.roots.len(), 2);
    for root in &g.roots {
        assert!(root
            .env
            .iter()
            .any(|(k, v)| k == "FOO" && v == "bar"));
    }
}

#[test]
fn build_dependencies_attach_only_to_build_scripts() {
    let cargo = CargoWorkspace {
        packages: vec![
            pkg(
                "main",
                vec![0, 1],
                vec![dep(1, "qlib", DepKind::Build), dep(2, "rlib", DepKind::Normal)],
                false,
            ),
            pkg("q", vec![2], vec![], false),
            pkg("r", vec![3], vec![], false),
        ],
        targets: vec![
            tgt("main", "/ws/main/src/lib.rs", TargetKind::Lib),
            tgt("build-script-build", "/ws/main/build.rs", TargetKind::BuildScript),
            tgt("qlib", "/ws/q/src/lib.rs", TargetKind::Lib),
            tgt("rlib", "/ws/r/src/lib.rs", TargetKind::Lib),
        ],
    };
    let load = loader(&[
        "/ws/main/src/lib.rs",
        "/ws/main/build.rs",
        "/ws/q/src/lib.rs",
        "/ws/r/src/lib.rs",
    ]);
    let g = CrateGraphJson::cargo_to_json(
        &Vec::new(),
        &CfgOverrides::default(),
        &no_macros(),
        &load,
        &cargo,
        &WorkspaceBuildScripts::default(),
        None,
        &None,
    )
    .unwrap();
    let main_lib = node_id(&g, "main");
    let main_bs = node_id(&g, "build-script-build");
    let qlib = node_id(&g, "qlib");
    let rlib = node_id(&g, "rlib");
    // The Build-kind dependency reaches only the build script.
    assert!(has_edge(&g, main_bs, "qlib", qlib));
    assert_eq!(count_edges_named(&g, main_lib, "qlib"), 0);
    // The Normal-kind dependency reaches only the non-build-script crate.
    assert!(has_edge(&g, main_lib, "rlib", rlib));
    assert_eq!(count_edges_named(&g, main_bs, "rlib"), 0);
    // A build script never links to its own package's library.
    assert_eq!(count_edges_named(&g, main_bs, "main"), 0);
}

fn rustc_workspace_diamond() -> CargoWorkspace {
    CargoWorkspace {
        packages: vec![
            pkg(
                "rustc_driver",
                vec![0],
                vec![dep(1, "q1", DepKind::Normal), dep(2, "q2", DepKind::Normal)],
                false,
            ),
            pkg("q1", vec![1], vec![dep(3, "r", DepKind::Normal)], false),
            pkg("q2", vec![2], vec![dep(3, "r", DepKind::Normal)], false),
            pkg("r", vec![3], vec![], false),
        ],
        targets: vec![
            tgt("rustc_driver", "/rustc/driver/lib.rs", TargetKind::Lib),
            tgt("q1", "/rustc/q1/lib.rs", TargetKind::Lib),
            tgt("q2", "/rustc/q2/lib.rs", TargetKind::Lib),
            tgt("r", "/rustc/r/lib.rs", TargetKind::Lib),
        ],
    }
}

#[test]
fn diamond_in_the_private_toolchain_imports_the_shared_package_once() {
    let cargo = CargoWorkspace {
        packages: vec![pkg("app", vec![0], vec![], true)],
        targets: vec![tgt("app", "/ws/app/src/lib.rs", TargetKind::Lib)],
    };
    let load = loader(&[
        "/ws/app/src/lib.rs",
        "/rustc/driver/lib.rs",
        "/rustc/q1/lib.rs",
        "/rustc/q2/lib.rs",
        "/rustc/r/lib.rs",
    ]);
    let g = CrateGraphJson::cargo_to_json(
        &Vec::new(),
        &CfgOverrides::default(),
        &no_macros(),
        &load,
        &cargo,
        &WorkspaceBuildScripts::default(),
        None,
        &Some(rustc_workspace_diamond()),
    )
    .unwrap();
    // The shared package produces exactly one library node.
    assert_eq!(count_nodes(&g, "r"), 1);
    let q1 = node_id(&g, "q1");
    let q2 = node_id(&g, "q2");
    let r = node_id(&g, "r");
    assert_eq!(count_edges_named(&g, q1, "r"), 1);
    assert_eq!(count_edges_named(&g, q2, "r"), 1);
    assert!(has_edge(&g, q1, "r", r));
    assert!(has_edge(&g, q2, "r", r));
    // The opted-in package gains one edge per toolchain library.
    let app = node_id(&g, "app");
    for name in ["rustc_driver", "q1", "q2", "r"] {
        assert_eq!(count_edges_named(&g, app, name), 1);
    }
}

#[test]
fn a_registry_dependency_is_not_duplicated_by_the_private_toolchain() {
    let cargo = CargoWorkspace {
        packages: vec![
            pkg("app", vec![0], vec![dep(1, "foo", DepKind::Normal)], true),
            pkg("foo", vec![1], vec![], false),
        ],
        targets: vec![
            tgt("app", "/ws/app/src/lib.rs", TargetKind::Lib),
            tgt("foo", "/ws/foo/src/lib.rs", TargetKind::Lib),
        ],
    };
    let rustc = CargoWorkspace {
        packages: vec![
            pkg("rustc_driver", vec![0], vec![dep(1, "foo", DepKind::Normal)], false),
            pkg("foo", vec![1], vec![], false),
        ],
        targets: vec![
            tgt("rustc_driver", "/rustc/driver/lib.rs", TargetKind::Lib),
            tgt("foo", "/rustc/foo/lib.rs", TargetKind::Lib),
        ],
    };
    let load = loader(&[
        "/ws/app/src/lib.rs",
        "/ws/foo/src/lib.rs",
        "/rustc/driver/lib.rs",
        "/rustc/foo/lib.rs",
    ]);
    let g = CrateGraphJson::cargo_to_json(
        &Vec::new(),
        &CfgOverrides::default(),
        &no_macros(),
        &load,
        &cargo,
        &WorkspaceBuildScripts::default(),
        None,
        &Some(rustc),
    )
    .unwrap();
    let app = node_id(&g, "app");
    let registry_foo = 1u32;  // second node created: app's workspace "foo"
    // Exactly one edge named "foo" leaves the opted-in package's crate,
    // and it points at the registry copy wired in the ordinary pass.
    assert_eq!(count_edges_named(&g, app, "foo"), 1);
    assert!(has_edge(&g, app, "foo", registry_foo));
}

#[test]
fn an_invalid_dependency_name_aborts_the_build() {
    let cargo = CargoWorkspace {
        packages: vec![
            pkg("a", vec![0], vec![dep(1, "bad-name", DepKind::Normal)], false),
            pkg("b", vec![1], vec![], false),
        ],
        targets: vec![
            tgt("a", "/ws/a/src/lib.rs", TargetKind::Lib),
            tgt("b", "/ws/b/src/lib.rs", TargetKind::Lib),
        ],
    };
    let load = loader(&["/ws/a/src/lib.rs", "/ws/b/src/lib.rs"]);
    let r = CrateGraphJson::cargo_to_json(
        &Vec::new(),
        &CfgOverrides::default(),
        &no_macros(),
        &load,
        &cargo,
        &WorkspaceBuildScripts::default(),
        None,
        &None,
    );
    match r {
        Err(BuildError::InvalidCrateName(n)) => assert_eq!(n, "bad-name"),
        _ => panic!("expected the build to abort on the invalid name"),
    }
}

#[test]
fn an_unresolvable_target_is_skipped_without_edges() {
    let cargo = CargoWorkspace {
        packages: vec![
            pkg("a", vec![0], vec![dep(1, "b", DepKind::Normal)], false),
            pkg("b", vec![1], vec![], false),
        ],
        targets: vec![
            tgt("a", "/ws/a/src/lib.rs", TargetKind::Lib),
            tgt("b", "/ws/b/src/lib.rs", TargetKind::Lib),
        ],
    };
    // b's source file is missing: no node, and a's dependency goes nowhere.
    let load = loader(&["/ws/a/src/lib.rs"]);
    let g = CrateGraphJson::cargo_to_json(
        &Vec::new(),
        &CfgOverrides::default(),
        &no_macros(),
        &load,
        &cargo,
        &WorkspaceBuildScripts::default(),
        None,
        &None,
    )
    .unwrap();
    assert_eq!(g.roots.len(), 1);
    assert_eq!(g.deps.len(), 0);
}

#[test]
fn an_override_changes_only_its_own_package() {
    let cargo = CargoWorkspace {
        packages: vec![pkg("a", vec![0], vec![], false), pkg("b", vec![1], vec![], false)],
        targets: vec![
            tgt("a", "/ws/a/src/lib.rs", TargetKind::Lib),
            tgt("b", "/ws/b/src/lib.rs", TargetKind::Lib),
        ],
    };
    let override_cfg = CfgOverrides {
        entries: vec![(
            "a".to_string(),
            CfgDiff {
                enable: vec![CfgFlag::Atom("special".to_string())],
                disable: vec![CfgFlag::Atom("test".to_string())],
            },
        )],
    };
    let load = loader(&["/ws/a/src/lib.rs", "/ws/b/src/lib.rs"]);
    let g = CrateGraphJson::cargo_to_json(
        &Vec::new(),
        &override_cfg,
        &no_macros(),
        &load,
        &cargo,
        &WorkspaceBuildScripts::default(),
        None,
        &None,
    )
    .unwrap();
    let a = node_id(&g, "a") as usize;
    let b = node_id(&g, "b") as usize;
    assert!(!g.roots[a].cfg_options.iter().any(|(k, _)| k == "test"));
    assert!(g.roots[a].cfg_options.iter().any(|(k, _)| k == "special"));
    assert!(g.roots[b].cfg_options.iter().any(|(k, _)| k == "test"));
    assert!(!g.roots[b].cfg_options.iter().any(|(k, _)| k == "special"));
}

#[test]
fn the_cargo_environment_is_injected_with_the_normalized_crate_name() {
    let cargo = CargoWorkspace {
        packages: vec![pkg("has-dash", vec![0], vec![], false)],
        targets: vec![tgt("has-dash", "/ws/has-dash/src/lib.rs", TargetKind::Lib)],
    };
    let load = loader(&["/ws/has-dash/src/lib.rs"]);
    let g = CrateGraphJson::cargo_to_json(
        &Vec::new(),
        &CfgOverrides::default(),
        &no_macros(),
        &load,
        &cargo,
        &WorkspaceBuildScripts::default(),
        None,
        &None,
    )
    .unwrap();
    let env = &g.roots[0].env;
    let get = |k: &str| {
        env.iter()
            .find(|(key, _)| key == k)
            .map(|(_, v)| v.clone())
            .unwrap()
    };
    assert_eq!(get("CARGO"), "cargo");
    assert_eq!(get("CARGO_PKG_NAME"), "has-dash");
    assert_eq!(get("CARGO_CRATE_NAME"), "has_dash");
    assert_eq!(get("CARGO_PKG_VERSION"), "1.0.0");
    assert_eq!(get("CARGO_MANIFEST_DIR"), "/ws/has-dash");
}

#[test]
fn features_appear_in_active_and_potential_configuration() {
    let mut p = pkg("a", vec![0], vec![], false);
    p.features = vec!["on".to_string(), "off".to_string()];
    p.active_features = vec!["on".to_string()];
    let cargo = CargoWorkspace {
        packages: vec![p],
        targets: vec![tgt("a", "/ws/a/src/lib.rs", TargetKind::Lib)],
    };
    let load = loader(&["/ws/a/src/lib.rs"]);
    let g = CrateGraphJson::cargo_to_json(
        &Vec::new(),
        &CfgOverrides::default(),
        &no_macros(),
        &load,
        &cargo,
        &WorkspaceBuildScripts::default(),
        None,
        &None,
    )
    .unwrap();
    let root = &g.roots[0];
    let active_features = root
        .cfg_options
        .iter()
        .find(|(k, _)| k == "feature")
        .map(|(_, vs)| vs.clone())
        .unwrap();
    assert_eq!(active_features, vec!["on".to_string()]);
    let potential_features = root
        .potential_cfg_options
        .iter()
        .find(|(k, _)| k == "feature")
        .map(|(_, vs)| vs.clone())
        .unwrap();
    assert!(potential_features.contains(&"on".to_string()));
    assert!(potential_features.contains(&"off".to_string()));
}

#[test]
fn an_empty_workspace_builds_an_empty_snapshot() {
    let cargo = CargoWorkspace { packages: vec![], targets: vec![] };
    let g = CrateGraphJson::cargo_to_json(
        &Vec::new(),
        &CfgOverrides::default(),
        &no_macros(),
        &loader(&[]),
        &cargo,
        &WorkspaceBuildScripts::default(),
        None,
        &None,
    )
    .unwrap();
    assert_eq!(g.roots.len(), 0);
    assert_eq!(g.deps.len(), 0);
}

#[test]
fn a_build_script_variable_overrides_the_injected_one_in_place() {
    let cargo = CargoWorkspace {
        packages: vec![pkg("m", vec![0], vec![], false)],
        targets: vec![tgt("m", "/ws/m/src/lib.rs", TargetKind::Lib)],
    };
    let build_scripts = WorkspaceBuildScripts {
        outputs: vec![Some(BuildScriptOutput {
            cfgs: Vec::new(),
            envs: vec![("CARGO_PKG_NAME".to_string(), "overridden".to_string())],
            proc_macro_dylib_path: None,
        })],
    };
    let load = loader(&["/ws/m/src/lib.rs"]);
    let g = CrateGraphJson::cargo_to_json(
        &Vec::new(),
        &CfgOverrides::default(),
        &no_macros(),
        &load,
        &cargo,
        &build_scripts,
        None,
        &None,
    )
    .unwrap();
    let env = &g.roots[0].env;
    // The name is replaced where it already stood, not appended again.
    assert_eq!(
        env.iter().filter(|(k, _)| k == "CARGO_PKG_NAME").count(),
        1
    );
    assert!(env.iter().any(|(k, v)| k == "CARGO_PKG_NAME" && v == "overridden"));
}

#[test]
fn a_repeated_flag_is_stored_once() {
    let mut p = pkg("a", vec![0], vec![], false);
    p.active_features = vec!["dup".to_string(), "dup".to_string()];
    p.features = vec!["dup".to_string()];
    let cargo = CargoWorkspace {
        packages: vec![p],
        targets: vec![tgt("a", "/ws/a/src/lib.rs", TargetKind::Lib)],
    };
    let load = loader(&["/ws/a/src/lib.rs"]);
    let g = CrateGraphJson::cargo_to_json(
        &Vec::new(),
        &CfgOverrides::default(),
        &no_macros(),
        &load,
        &cargo,
        &WorkspaceBuildScripts::default(),
        None,
        &None,
    )
    .unwrap();
    let features = g.roots[0]
        .cfg_options
        .iter()
        .find(|(k, _)| k == "feature")
        .map(|(_, vs)| vs.clone())
        .unwrap();
    assert_eq!(features, vec!["dup".to_string()]);
    let potential = g.roots[0]
        .potential_cfg_options
        .iter()
        .find(|(k, _)| k == "feature")
        .map(|(_, vs)| vs.clone())
        .unwrap();
    assert_eq!(potential, vec!["dup".to_string()]);
}

#[test]
fn a_missing_toolchain_root_makes_the_import_a_no_op() {
    let cargo = CargoWorkspace {
        packages: vec![pkg("app", vec![0], vec![], true)],
        targets: vec![tgt("app", "/ws/app/src/lib.rs", TargetKind::Lib)],
    };
    let rustc = CargoWorkspace {
        packages: vec![pkg("unrelated", vec![1], vec![], false)],
        targets: vec![
            tgt("app", "/ws/app/src/lib.rs", TargetKind::Lib),
            tgt("unrelated", "/rustc/unrelated/lib.rs", TargetKind::Lib),
        ],
    };
    let load = loader(&["/ws/app/src/lib.rs", "/rustc/unrelated/lib.rs"]);
    let g = CrateGraphJson::cargo_to_json(
        &Vec::new(),
        &CfgOverrides::default(),
        &no_macros(),
        &load,
        &cargo,
        &WorkspaceBuildScripts::default(),
        None,
        &Some(rustc),
    )
    .unwrap();
    // Only the workspace's own crate: nothing was imported.
    assert_eq!(g.roots.len(), 1);
    assert_eq!(g.deps.len(), 0);
}

#[test]
fn the_macro_support_edge_skips_build_scripts() {
    let cargo = CargoWorkspace {
        packages: vec![pkg("m", vec![0, 1], vec![], false)],
        targets: vec![
            tgt("m", "/ws/m/src/lib.rs", TargetKind::Lib),
            tgt("build-script-build", "/ws/m/build.rs", TargetKind::BuildScript),
        ],
    };
    let sysroot = Sysroot {
        crates: vec![SysrootCrateData {
            name: "proc_macro".to_string(),
            root: "/sysroot/proc_macro.rs".to_string(),
            deps: vec![],
        }],
        public_deps: vec![],
        proc_macro: Some(0),
    };
    let load = loader(&["/ws/m/src/lib.rs", "/ws/m/build.rs", "/sysroot/proc_macro.rs"]);
    let g = CrateGraphJson::cargo_to_json(
        &Vec::new(),
        &CfgOverrides::default(),
        &no_macros(),
        &load,
        &cargo,
        &WorkspaceBuildScripts::default(),
        Some(&sysroot),
        &None,
    )
    .unwrap();
    let support = node_id(&g, "proc_macro");
    let lib = node_id(&g, "m");
    let bs = node_id(&g, "build-script-build");
    assert!(has_edge(&g, lib, "proc_macro", support));
    assert_eq!(count_edges_named(&g, bs, "proc_macro"), 0);
}

#[test]
fn the_macro_module_path_is_recorded_on_the_package_nodes() {
    let cargo = CargoWorkspace {
        packages: vec![pkg("m", vec![0], vec![], false)],
        targets: vec![tgt("m", "/ws/m/src/lib.rs", TargetKind::Lib)],
    };
    let build_scripts = WorkspaceBuildScripts {
        outputs: vec![Some(BuildScriptOutput {
            cfgs: Vec::new(),
            envs: Vec::new(),
            proc_macro_dylib_path: Some("/target/libm_macros.so".to_string()),
        })],
    };
    let load = loader(&["/ws/m/src/lib.rs"]);
    let g = CrateGraphJson::cargo_to_json(
        &Vec::new(),
        &CfgOverrides::default(),
        &no_macros(),
        &load,
        &cargo,
        &build_scripts,
        None,
        &None,
    )
    .unwrap();
    assert_eq!(
        g.roots[0].proc_macro,
        vec!["/target/libm_macros.so".to_string()]
    );
}
