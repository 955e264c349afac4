//! The data model around the builder: editions, crate names, paths, the
//! project description, metadata conversion, and the change set.

use project_model::{
    cargo_to_json, crate_name_ok, meta_to_json, normalize_dashes, CargoWorkspace, CfgOverrides,
    ChangeJson, CrateData, CrateGraphJson, CrateSource, DepData, Edition, EditionData, Env,
    FileLoader, MetaDep, MetaDepKind, MetaNode, MetaPackage, Metadata, PackageData,
    PackageMetadata, PathData, ProcMacroLoader, ProjectJson, ProjectJsonData, SourceRoot,
    TargetData, TargetKind, VersionData, WorkspaceBuildScripts,
};

fn path(absolute: bool, components: &[&str]) -> PathData {
    PathData {
        absolute,
        components: components.iter().map(|c| c.to_string()).collect(),
    }
}

fn empty_crate_data() -> CrateData {
    CrateData {
        display_name: None,
        root_module: path(false, &[]),
        edition: EditionData::Edition2018,
        deps: Vec::new(),
        cfg: Vec::new(),
        target: None,
        env: Env::default(),
        proc_macro_dylib_path: None,
        is_workspace_member: None,
        source: None,
        is_proc_macro: false,
    }
}

#[test]
fn editions_parse_and_reject() {
    assert!(matches!(Edition::from_str("2015"), Ok(Edition::Edition2015)));
    assert!(matches!(Edition::from_str("2018"), Ok(Edition::Edition2018)));
    assert!(matches!(Edition::from_str("2021"), Ok(Edition::Edition2021)));
    match Edition::from_str("2024-ish") {
        Err(e) => assert_eq!(e.invalid_input, "2024-ish"),
        Ok(_) => panic!("an unknown edition string must be rejected"),
    }
    assert!(matches!(
        EditionData::from_str("2015"),
        Ok(EditionData::Edition2015)
    ));
    assert!(EditionData::from_str("").is_err());
    assert_eq!(Edition::Edition2015.as_str(), "2015");
    assert_eq!(Edition::current(), Edition::Edition2021);
    assert_eq!(Edition::from(EditionData::Edition2021), Edition::Edition2021);
    assert_eq!(EditionData::from(Edition::Edition2015), EditionData::Edition2015);
}

#[test]
fn crate_names_reject_dashes_and_normalize_them() {
    assert!(crate_name_ok("serde"));
    assert!(crate_name_ok("serde_json"));
    assert!(!crate_name_ok("serde-json"));
    assert_eq!(normalize_dashes("serde-json"), "serde_json");
    assert_eq!(normalize_dashes("a-b-c"), "a_b_c");
    assert_eq!(normalize_dashes("plain"), "plain");
}

#[test]
fn paths_join_normalize_and_test_prefixes() {
    let base = path(true, &["root"]);
    let rel = path(false, &["a", "..", "b", "."]);
    let joined = base.join(&rel).normalize();
    assert!(joined.absolute);
    assert_eq!(joined.components, vec!["root".to_string(), "b".to_string()]);
    let abs = path(true, &["elsewhere"]);
    assert_eq!(base.join(&abs).components, vec!["elsewhere".to_string()]);
    assert!(joined.starts_with(&base));
    assert!(!base.starts_with(&joined));
    assert_eq!(joined.parent().components, vec!["root".to_string()]);
    assert!(path(false, &["..", "x"]).starts_with(&path(false, &[".."])));
}

#[test]
fn a_project_description_is_anchored_at_its_base() {
    let base = path(true, &["root"]);
    let mut member = empty_crate_data();
    member.display_name = Some("m".to_string());
    member.root_module = path(false, &["src", ".", "lib.rs"]);
    member.deps = vec![DepData { krate: 1, name: "other".to_string() }];
    let mut outsider = empty_crate_data();
    outsider.root_module = path(false, &["..", "out", "lib.rs"]);
    let mut explicit = empty_crate_data();
    explicit.root_module = path(true, &["abs", "lib.rs"]);
    explicit.is_workspace_member = Some(true);
    explicit.source = Some(CrateSource {
        source_dirs: vec![path(false, &["inc"])],
        exclude_dirs: vec![path(false, &["inc", "gen"])],
    });
    let data = ProjectJsonData {
        sysroot_src: Some(path(false, &["sys"])),
        crates: vec![member, outsider, explicit],
    };
    let project = ProjectJson::new(&base, data);

    assert_eq!(project.n_crates(), 3);
    assert_eq!(
        project.sysroot_src.as_ref().unwrap().components,
        vec!["root".to_string(), "sys".to_string()]
    );
    assert_eq!(project.path().components, vec!["root".to_string()]);

    let crates = project.crates();
    // A relative root module inside the base folder makes a member.
    assert!(crates[0].is_workspace_member);
    assert_eq!(
        crates[0].root_module.components,
        vec!["root".to_string(), "src".to_string(), "lib.rs".to_string()]
    );
    // Without source folders, the root module's folder is the one source
    // folder.
    assert_eq!(crates[0].source_dirs.len(), 1);
    assert_eq!(
        crates[0].source_dirs[0].components,
        vec!["root".to_string(), "src".to_string()]
    );
    assert_eq!(crates[0].exclude_dirs.len(), 0);
    assert_eq!(crates[0].deps.len(), 1);
    assert_eq!(crates[0].deps[0].crate_id, 1);
    assert_eq!(crates[0].deps[0].name, "other");
    // A relative root module leaving the base folder is no member.
    assert!(!crates[1].is_workspace_member);
    // An explicit flag wins, and declared source folders are anchored.
    assert!(crates[2].is_workspace_member);
    assert_eq!(
        crates[2].source_dirs[0].components,
        vec!["root".to_string(), "inc".to_string()]
    );
    assert_eq!(
        crates[2].exclude_dirs[0].components,
        vec!["root".to_string(), "inc".to_string(), "gen".to_string()]
    );
}

fn meta_pkg(id: &str, name: &str, edition: &str) -> MetaPackage {
    MetaPackage {
        id: id.as_bytes().to_vec(),
        name: name.to_string(),
        edition: edition.to_string(),
    }
}

fn meta_dep(pkg: &str, name: &str, kinds: Vec<MetaDepKind>) -> MetaDep {
    MetaDep { pkg: pkg.as_bytes().to_vec(), name: name.to_string(), dep_kinds: kinds }
}

#[test]
fn metadata_converts_to_a_sorted_project_description() {
    let meta = Metadata {
        packages: vec![
            meta_pkg("zzz", "beta", "2018"),
            meta_pkg("aaa", "alpha", "2015"),
            meta_pkg("mmm", "gamma", "weird"),
        ],
        resolve: Some(vec![
            MetaNode {
                id: "zzz".as_bytes().to_vec(),
                deps: vec![meta_dep(
                    "aaa",
                    "alpha",
                    vec![MetaDepKind::Normal, MetaDepKind::Build],
                )],
            },
            MetaNode { id: "unknown".as_bytes().to_vec(), deps: vec![meta_dep("aaa", "alpha", vec![])] },
            MetaNode {
                id: "aaa".as_bytes().to_vec(),
                deps: vec![meta_dep("nope", "gone", vec![MetaDepKind::Normal])],
            },
        ]),
    };
    let json = meta_to_json(meta);
    assert!(json.sysroot_src.is_none());
    assert_eq!(json.crates.len(), 3);
    // Packages are sorted by identity: aaa, mmm, zzz.
    let names: Vec<&str> = json
        .crates
        .iter()
        .map(|c| c.display_name.as_deref().unwrap())
        .collect();
    assert_eq!(names, vec!["alpha", "gamma", "beta"]);
    assert_eq!(json.crates[0].edition, EditionData::Edition2015);
    // An unknown edition string falls back to 2018.
    assert_eq!(json.crates[1].edition, EditionData::Edition2018);
    // beta's dependency on alpha appears once per declared kind.
    assert_eq!(json.crates[2].deps.len(), 2);
    for d in &json.crates[2].deps {
        assert_eq!(d.krate, 0);
        assert_eq!(d.name, "alpha");
    }
    // alpha's dependency on an unknown identity is skipped, as is the
    // node with an unknown identity.
    assert_eq!(json.crates[0].deps.len(), 0);
    assert_eq!(json.crates[1].deps.len(), 0);
}

#[test]
fn a_dependency_without_declared_kinds_counts_as_one_normal_dependency() {
    let meta = Metadata {
        packages: vec![meta_pkg("a", "a", "2018"), meta_pkg("b", "b", "2018")],
        resolve: Some(vec![MetaNode {
            id: "a".as_bytes().to_vec(),
            deps: vec![meta_dep("b", "b", vec![])],
        }]),
    };
    let json = meta_to_json(meta);
    assert_eq!(json.crates[0].deps.len(), 1);
    // A dependency declaring only unknown kinds contributes nothing.
    let meta2 = Metadata {
        packages: vec![meta_pkg("a", "a", "2018"), meta_pkg("b", "b", "2018")],
        resolve: Some(vec![MetaNode {
            id: "a".as_bytes().to_vec(),
            deps: vec![meta_dep("b", "b", vec![MetaDepKind::Unknown])],
        }]),
    };
    let json2 = meta_to_json(meta2);
    assert_eq!(json2.crates[0].deps.len(), 0);
}

#[test]
fn a_cargo_workspace_sketches_into_a_project_description() {
    let cargo = CargoWorkspace {
        packages: vec![
            PackageData {
                name: "one".to_string(),
                version: VersionData {
                    full: "0.1.0".to_string(),
                    major: "0".to_string(),
                    minor: "1".to_string(),
                    patch: "0".to_string(),
                    pre: String::new(),
                },
                manifest_dir: "/ws/one".to_string(),
                edition: Edition::Edition2015,
                targets: vec![0],
                dependencies: Vec::new(),
                features: Vec::new(),
                active_features: Vec::new(),
                metadata: PackageMetadata { rustc_private: false },
            },
        ],
        targets: vec![TargetData {
            name: "one".to_string(),
            root: "/ws/one/src/lib.rs".to_string(),
            kind: TargetKind::Lib,
        }],
    };
    let json = cargo_to_json(
        &Vec::new(),
        &CfgOverrides::default(),
        &ProcMacroLoader { entries: Vec::new() },
        &FileLoader { entries: Vec::new() },
        &cargo,
        &WorkspaceBuildScripts::default(),
        None,
        &None,
    );
    assert!(json.sysroot_src.is_none());
    assert_eq!(json.crates.len(), 1);
    assert_eq!(json.crates[0].display_name.as_deref(), Some("one"));
    assert_eq!(json.crates[0].edition, EditionData::Edition2015);
    assert_eq!(json.crates[0].deps.len(), 0);
}

#[test]
fn the_change_set_records_files_roots_and_the_graph() {
    let mut change = ChangeJson::default();
    change.change_file(1, Some("one".to_string()));
    change.change_file(2, None);
    change.change_file(1, Some("two".to_string()));
    assert_eq!(
        change.files,
        vec![(1, Some("two".to_string())), (2, None)]
    );

    let roots = vec![
        SourceRoot {
            is_library: false,
            files: vec![(10, Some("/ws/lib.rs".to_string()))],
        },
        SourceRoot { is_library: true, files: vec![(20, None), (21, Some("/sysroot/std.rs".to_string()))] },
    ];
    change.set_roots(roots);
    assert_eq!(change.local_roots.roots, vec![(10, Some("/ws/lib.rs".to_string()))]);
    assert_eq!(
        change.library_roots.roots,
        vec![(20, None), (21, Some("/sysroot/std.rs".to_string()))]
    );
    assert_eq!(change.library_roots.to_roots().len(), 0);

    let graph = CrateGraphJson::default();
    change.set_crate_graph(graph);
    assert_eq!(change.crate_graph.roots.len(), 0);
}
