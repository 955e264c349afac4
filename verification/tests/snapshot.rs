//! Serialization round trips and materialization of snapshots.

use project_model::{CrateGraphJson, CrateRoot, Dep, Edition};

fn sample_snapshot() -> CrateGraphJson {
    CrateGraphJson {
        roots: vec![
            CrateRoot {
                file_id: 7,
                edition: "2018".to_string(),
                display_name: Some("alpha".to_string()),
                cfg_options: vec![
                    ("feature".to_string(), vec!["x".to_string(), "y".to_string()]),
                    ("test".to_string(), vec![]),
                ],
                potential_cfg_options: vec![(
                    "feature".to_string(),
                    vec!["x".to_string(), "y".to_string(), "z".to_string()],
                )],
                env: vec![("FOO".to_string(), "bar".to_string())],
                proc_macro: vec![],
            },
            CrateRoot {
                file_id: 9,
                edition: "someday".to_string(),
                display_name: None,
                cfg_options: vec![],
                potential_cfg_options: vec![],
                env: vec![],
                proc_macro: vec![],
            },
        ],
        deps: vec![Dep { from: 0, name: "beta".to_string(), to: 1 }],
    }
}

type RootData = (
    u32,
    String,
    Option<String>,
    Vec<(String, Vec<String>)>,
    Vec<(String, Vec<String>)>,
    Vec<(String, String)>,
    Vec<String>,
);

fn to_plain(g: &CrateGraphJson) -> (Vec<RootData>, Vec<(u32, String, u32)>) {
    let roots = g
        .roots
        .iter()
        .map(|r| {
            (
                r.file_id,
                r.edition.clone(),
                r.display_name.clone(),
                r.cfg_options.clone(),
                r.potential_cfg_options.clone(),
                r.env.clone(),
                r.proc_macro.clone(),
            )
        })
        .collect();
    let deps = g
        .deps
        .iter()
        .map(|d| (d.from, d.name.clone(), d.to))
        .collect();
    (roots, deps)
}

fn from_plain(roots: Vec<RootData>, deps: Vec<(u32, String, u32)>) -> CrateGraphJson {
    CrateGraphJson {
        roots: roots
            .into_iter()
            .map(|(file_id, edition, display_name, cfg, potential, env, pm)| CrateRoot {
                file_id,
                edition,
                display_name,
                cfg_options: cfg,
                potential_cfg_options: potential,
                env,
                proc_macro: pm,
            })
            .collect(),
        deps: deps
            .into_iter()
            .map(|(from, name, to)| Dep { from, name, to })
            .collect(),
    }
}

#[test]
fn serialize_deserialize_materialize_matches_direct_materialization() {
    let g = sample_snapshot();

    let plain = to_plain(&g);
    let text = serde_json::to_string(&plain).unwrap();
    let decoded: (Vec<RootData>, Vec<(u32, String, u32)>) = serde_json::from_str(&text).unwrap();
    let g2 = from_plain(decoded.0, decoded.1);

    let direct = g.to_crate_graph();
    let round_tripped = g2.to_crate_graph();

    assert_eq!(direct.crates.len(), round_tripped.crates.len());
    for (a, b) in direct.crates.iter().zip(round_tripped.crates.iter()) {
        assert_eq!(a.file_id, b.file_id);
        assert_eq!(a.edition, b.edition);
        assert_eq!(a.display_name, b.display_name);
        assert_eq!(a.env.entries, b.env.entries);
        assert_eq!(a.dependencies.len(), b.dependencies.len());
    }
    // The materialized edge multisets agree (nodes carry their edges).
    let edges_of = |g: &project_model::CrateGraph| {
        let mut v: Vec<(usize, u32, String)> = g
            .crates
            .iter()
            .enumerate()
            .flat_map(|(i, n)| {
                n.dependencies
                    .iter()
                    .map(move |d| (i, d.crate_id, d.name.clone()))
            })
            .collect();
        v.sort();
        v
    };
    assert_eq!(edges_of(&direct), edges_of(&round_tripped));
}

#[test]
fn materialization_parses_editions_and_falls_back_on_unknown_ones() {
    let g = sample_snapshot();
    let runtime = g.to_crate_graph();
    assert_eq!(runtime.crates.len(), 2);
    assert_eq!(runtime.crates[0].edition, Edition::Edition2018);
    // "someday" names no edition: the most recent known one is used.
    assert_eq!(runtime.crates[1].edition, Edition::Edition2021);
    assert_eq!(runtime.crates[0].file_id, 7);
    assert_eq!(runtime.crates[1].file_id, 9);
}

#[test]
fn materialization_rebuilds_key_value_flags_and_drops_bare_atoms() {
    let g = sample_snapshot();
    let runtime = g.to_crate_graph();
    let cfg = &runtime.crates[0].cfg_options;
    // The feature values come back as key/value flags.
    let keys = cfg.get_cfg_keys();
    assert!(keys.contains(&"feature".to_string()));
    let values = cfg.get_cfg_values("feature");
    assert_eq!(values, vec!["x".to_string(), "y".to_string()]);
    // A serialized atom has no values, so no flag is rebuilt for it.
    assert!(!keys.contains(&"test".to_string()));
}

#[test]
fn materialization_carries_no_edges_onto_the_nodes() {
    let g = sample_snapshot();
    assert_eq!(g.deps.len(), 1);
    let runtime = g.to_crate_graph();
    for node in &runtime.crates {
        assert_eq!(node.dependencies.len(), 0);
    }
}

#[test]
fn the_environment_is_rebuilt_in_order() {
    let g = sample_snapshot();
    let runtime = g.to_crate_graph();
    assert_eq!(
        runtime.crates[0].env.entries,
        vec![("FOO".to_string(), "bar".to_string())]
    );
}
