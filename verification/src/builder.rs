//! Construction of the crate-graph snapshot from a resolved workspace.
//!
//! Construction is all-or-nothing: a structurally invalid crate name
//! aborts the whole build with [`BuildError`], and no snapshot is exposed.
//! A target whose source file the resolver cannot find is silently
//! skipped, producing no node and no edges — an expected condition, not an
//! error.

use crate::cfg_data::{
    cfg_pairs_superset, flag_views, lemma_insert_all_superset, lemma_pairs_superset, spec_insert_all,
    spec_pairs, CfgFlag, CfgFlagView, CfgOptions,
};
use crate::crate_name::{crate_name_ok, is_valid_crate_name, normalize_dashes};
use crate::edition::Edition;
use crate::env_data::{env_views, spec_env_set, Env};
use crate::graph_json::{CrateGraphJson, CrateRootView, Dep, DepView};
use crate::strings::str_views;
use crate::workspace::{BuildScriptOutput, CargoWorkspace, DepKind, FileLoader, PackageData, PackageDependency, ProcMacroLoader, Sysroot, TargetKind};
use vstd::prelude::*;
use vstd::string::{StrSliceExecFns, StringExecFns};

verus! {

/// The one fatal condition of a build: a structurally invalid crate name,
/// which indicates an inconsistency in the upstream workspace resolution
/// that the builder cannot paper over.
#[derive(Debug)]
pub enum BuildError {
    InvalidCrateName(String),
}

/// Appends one edge to the snapshot.
pub(crate) fn add_dep(graph: &mut CrateGraphJson, from: u32, name: String, to: u32)
    ensures
        final(graph)@.roots == old(graph)@.roots,
        final(graph)@.deps == old(graph)@.deps.push(DepView { from, name: name@, to }),
{
    graph.add_dep(Dep { from, name, to });
}

/// Setting a sequence of variables in order.
pub open spec fn spec_env_set_all(
    e: Seq<(Seq<char>, Seq<char>)>,
    kvs: Seq<(Seq<char>, Seq<char>)>,
) -> Seq<(Seq<char>, Seq<char>)>
    decreases kvs.len(),
{
    if kvs.len() == 0 {
        e
    } else {
        spec_env_set(spec_env_set_all(e, kvs.drop_last()), kvs.last().0, kvs.last().1)
    }
}

/// The compile-time environment cargo sets for a package's crates.
pub open spec fn spec_inject_cargo_env(
    e: Seq<(Seq<char>, Seq<char>)>,
    pkg: PackageData,
) -> Seq<(Seq<char>, Seq<char>)> {
    let e1 = spec_env_set(e, "CARGO_MANIFEST_DIR"@, pkg.manifest_dir@);
    let e2 = spec_env_set(e1, "CARGO"@, "cargo"@);
    let e3 = spec_env_set(e2, "CARGO_PKG_VERSION"@, pkg.version.full@);
    let e4 = spec_env_set(e3, "CARGO_PKG_VERSION_MAJOR"@, pkg.version.major@);
    let e5 = spec_env_set(e4, "CARGO_PKG_VERSION_MINOR"@, pkg.version.minor@);
    let e6 = spec_env_set(e5, "CARGO_PKG_VERSION_PATCH"@, pkg.version.patch@);
    let e7 = spec_env_set(e6, "CARGO_PKG_VERSION_PRE"@, pkg.version.pre@);
    let e8 = spec_env_set(e7, "CARGO_PKG_AUTHORS"@, Seq::<char>::empty());
    let e9 = spec_env_set(e8, "CARGO_PKG_NAME"@, pkg.name@);
    let e10 = spec_env_set(
        e9,
        "CARGO_CRATE_NAME"@,
        crate::crate_name::spec_normalize_dashes(pkg.name@),
    );
    let e11 = spec_env_set(e10, "CARGO_PKG_DESCRIPTION"@, Seq::<char>::empty());
    let e12 = spec_env_set(e11, "CARGO_PKG_HOMEPAGE"@, Seq::<char>::empty());
    let e13 = spec_env_set(e12, "CARGO_PKG_REPOSITORY"@, Seq::<char>::empty());
    let e14 = spec_env_set(e13, "CARGO_PKG_LICENSE"@, Seq::<char>::empty());
    spec_env_set(e14, "CARGO_PKG_LICENSE_FILE"@, Seq::<char>::empty())
}

/// Sets the compile-time environment variables that cargo would set for
/// the crates of a package.
pub fn inject_cargo_env(package: &PackageData, env: &mut Env)
    ensures
        final(env)@ == spec_inject_cargo_env(old(env)@, *package),
{
    env.set(String::from_str("CARGO_MANIFEST_DIR"), package.manifest_dir.clone());
    env.set(String::from_str("CARGO"), String::from_str("cargo"));
    env.set(String::from_str("CARGO_PKG_VERSION"), package.version.full.clone());
    env.set(String::from_str("CARGO_PKG_VERSION_MAJOR"), package.version.major.clone());
    env.set(String::from_str("CARGO_PKG_VERSION_MINOR"), package.version.minor.clone());
    env.set(String::from_str("CARGO_PKG_VERSION_PATCH"), package.version.patch.clone());
    env.set(String::from_str("CARGO_PKG_VERSION_PRE"), package.version.pre.clone());
    env.set(String::from_str("CARGO_PKG_AUTHORS"), String::new());
    env.set(String::from_str("CARGO_PKG_NAME"), package.name.clone());
    env.set(String::from_str("CARGO_CRATE_NAME"), normalize_dashes(package.name.as_str()));
    env.set(String::from_str("CARGO_PKG_DESCRIPTION"), String::new());
    env.set(String::from_str("CARGO_PKG_HOMEPAGE"), String::new());
    env.set(String::from_str("CARGO_PKG_REPOSITORY"), String::new());
    env.set(String::from_str("CARGO_PKG_LICENSE"), String::new());
    env.set(String::from_str("CARGO_PKG_LICENSE_FILE"), String::new());
}

/// The `feature` key/value flags for a list of feature names.
pub open spec fn feature_flags(feats: Seq<String>) -> Seq<CfgFlagView> {
    feats.map_values(|f: String| CfgFlagView::KeyValue("feature"@, f@))
}

/// The active configuration of a package's crates: the package's
/// effective base, its active features, and whatever extra flags its
/// build script produced.
pub open spec fn spec_active_cfg(
    base: Seq<CfgFlagView>,
    pkg: PackageData,
    build_data: Option<BuildScriptOutput>,
) -> Seq<CfgFlagView> {
    let with_features = spec_insert_all(base, feature_flags(pkg.active_features@));
    match build_data {
        Some(b) => spec_insert_all(with_features, flag_views(b.cfgs@)),
        None => with_features,
    }
}

/// The potential configuration: the active one plus every declared
/// feature, active or not.
pub open spec fn spec_potential_cfg(active: Seq<CfgFlagView>, pkg: PackageData) -> Seq<
    CfgFlagView,
> {
    spec_insert_all(active, feature_flags(pkg.features@))
}

/// The environment of a package's crates: the cargo-set variables plus
/// whatever the build script added.
pub open spec fn spec_target_env(pkg: PackageData, build_data: Option<BuildScriptOutput>) -> Seq<
    (Seq<char>, Seq<char>),
> {
    let e = spec_inject_cargo_env(Seq::empty(), pkg);
    match build_data {
        Some(b) => spec_env_set_all(e, env_views(b.envs@)),
        None => e,
    }
}

/// The macro-module paths a target's node records: the path of the
/// compiled macro-support module the package's build script produced, if
/// any.
pub open spec fn spec_macro_paths(build_data: Option<BuildScriptOutput>) -> Seq<Seq<char>> {
    match build_data {
        Some(b) => match b.proc_macro_dylib_path {
            Some(p) => seq![p@],
            None => Seq::empty(),
        },
        None => Seq::empty(),
    }
}

/// The node a target of a package produces.
pub open spec fn spec_target_root(
    base: Seq<CfgFlagView>,
    pkg: PackageData,
    build_data: Option<BuildScriptOutput>,
    file_id: u32,
    cargo_name: Seq<char>,
) -> CrateRootView {
    let active = spec_active_cfg(base, pkg, build_data);
    CrateRootView {
        file_id,
        edition: pkg.edition.spec_str(),
        display_name: Some(cargo_name),
        cfg_options: spec_pairs(active),
        potential_cfg_options: spec_pairs(spec_potential_cfg(active, pkg)),
        env: spec_target_env(pkg, build_data),
        proc_macro: spec_macro_paths(build_data),
    }
}

/// Creates the crate node for one target of a package and returns its
/// identity. The node's potential configuration always covers its active
/// configuration, key by key.
pub fn add_target_crate_root(
    graph: &mut CrateGraphJson,
    pkg: &PackageData,
    build_data: Option<&BuildScriptOutput>,
    cfg_options: &CfgOptions,
    load_proc_macro: &ProcMacroLoader,
    file_id: u32,
    cargo_name: &str,
) -> (id: u32)
    requires
        old(graph).roots@.len() < u32::MAX as usize,
    ensures
        id == old(graph)@.roots.len(),
        final(graph)@.deps == old(graph)@.deps,
        final(graph)@.roots == old(graph)@.roots.push(
            spec_target_root(
                cfg_options@,
                *pkg,
                match build_data {
                    Some(b) => Some(*b),
                    None => None,
                },
                file_id,
                cargo_name@,
            ),
        ),
        cfg_pairs_superset(
            final(graph)@.roots.last().potential_cfg_options,
            final(graph)@.roots.last().cfg_options,
        ),
{
    let ghost base = cfg_options@;
    let ghost bd = match build_data {
        Some(b) => Some(*b),
        None => None,
    };
    let edition = pkg.edition;

    // Active configuration: effective base, active features, build-script
    // flags.
    let mut opts = cfg_options.clone();
    let ghost feats_active = feature_flags(pkg.active_features@);
    let mut i: usize = 0;
    while i < pkg.active_features.len()
        invariant
            0 <= i <= pkg.active_features@.len(),
            feats_active == feature_flags(pkg.active_features@),
            opts@ == spec_insert_all(base, feats_active.take(i as int)),
        decreases pkg.active_features@.len() - i,
    {
        let feature = pkg.active_features[i].clone();
        opts.insert_key_value(String::from_str("feature"), feature);
        proof {
            assert(feats_active.take(i + 1).drop_last() =~= feats_active.take(i as int));
            assert(feats_active.take(i + 1).last() == feats_active[i as int]);
        }
        i = i + 1;
    }
    proof {
        assert(feats_active.take(feats_active.len() as int) =~= feats_active);
    }
    match build_data {
        Some(b) => {
            opts.extend(&b.cfgs);
        },
        None => {},
    }
    let ghost active = opts@;
    proof {
        assert(active == spec_active_cfg(base, *pkg, bd));
    }

    // Environment: the cargo-set variables, then the build script's.
    let mut env = Env::default();
    inject_cargo_env(pkg, &mut env);
    match build_data {
        Some(b) => {
            let ghost kvs = env_views(b.envs@);
            let ghost e0 = env@;
            let mut j: usize = 0;
            while j < b.envs.len()
                invariant
                    0 <= j <= b.envs@.len(),
                    kvs == env_views(b.envs@),
                    env@ == spec_env_set_all(e0, kvs.take(j as int)),
                decreases b.envs@.len() - j,
            {
                let k = b.envs[j].0.clone();
                let v = b.envs[j].1.clone();
                env.set(k, v);
                proof {
                    assert(kvs.take(j + 1).drop_last() =~= kvs.take(j as int));
                    assert(kvs.take(j + 1).last() == kvs[j as int]);
                }
                j = j + 1;
            }
            proof {
                assert(kvs.take(kvs.len() as int) =~= kvs);
            }
        },
        None => {},
    }
    proof {
        assert(env@ == spec_target_env(*pkg, bd));
    }

    // The macro-support module: the loader is consulted as the host
    // would be, its handles are re-derived on load and not stored, and
    // the node records the module's path.
    let proc_macro: Vec<String> = match build_data {
        Some(b) => match &b.proc_macro_dylib_path {
            Some(path) => {
                let _handles = load_proc_macro.load(path.as_str());
                let mut paths: Vec<String> = Vec::new();
                paths.push(path.clone());
                proof {
                    assert(str_views(paths@) =~= spec_macro_paths(bd));
                }
                paths
            },
            None => Vec::new(),
        },
        None => Vec::new(),
    };
    proof {
        assert(str_views(proc_macro@) == spec_macro_paths(bd)) by {
            if proc_macro@.len() == 0 {
                assert(str_views(proc_macro@) =~= spec_macro_paths(bd));
            }
        }
    }

    let display_name = cargo_name.to_owned();

    // Potential configuration: the active one plus every declared
    // feature.
    let mut potential = opts.clone();
    let ghost feats_all = feature_flags(pkg.features@);
    let mut k: usize = 0;
    while k < pkg.features.len()
        invariant
            0 <= k <= pkg.features@.len(),
            feats_all == feature_flags(pkg.features@),
            potential@ == spec_insert_all(active, feats_all.take(k as int)),
        decreases pkg.features@.len() - k,
    {
        let feat = pkg.features[k].clone();
        potential.insert_key_value(String::from_str("feature"), feat);
        proof {
            assert(feats_all.take(k + 1).drop_last() =~= feats_all.take(k as int));
            assert(feats_all.take(k + 1).last() == feats_all[k as int]);
        }
        k = k + 1;
    }
    proof {
        assert(feats_all.take(feats_all.len() as int) =~= feats_all);
        assert(potential@ == spec_potential_cfg(active, *pkg));
    }

    let ghost pot = potential@;
    let id = graph.add_crate_root(
        file_id,
        edition,
        Some(display_name),
        opts,
        potential,
        env,
        proc_macro,
    );
    proof {
        assert(graph@.roots.last() == spec_target_root(base, *pkg, bd, file_id, cargo_name@));
        lemma_insert_all_superset(active, feats_all);
        lemma_pairs_superset(active, pot);
    }
    id
}

} // verus!

verus! {

/// The fixed configuration of every sysroot crate node: the platform
/// flags alone.
pub open spec fn sysroot_base_cfg(rustc_cfg: Seq<CfgFlag>) -> Seq<CfgFlagView> {
    spec_insert_all(Seq::empty(), flag_views(rustc_cfg))
}

/// Whether a sysroot crate's source file is present.
pub open spec fn sysroot_resolvable(sys: &Sysroot, load: &FileLoader, c: int) -> bool {
    load.spec_load(sys.crates@[c].root@) is Some
}

/// How many of the first `c` sysroot crates resolve.
pub open spec fn resolved_before(sys: &Sysroot, load: &FileLoader, c: int) -> nat
    decreases c,
{
    if c <= 0 {
        0
    } else {
        resolved_before(sys, load, c - 1) + if sysroot_resolvable(sys, load, c - 1) {
            1nat
        } else {
            0nat
        }
    }
}

/// At most one node per sysroot crate.
pub proof fn lemma_resolved_before_le(sys: &Sysroot, load: &FileLoader, c: int)
    requires
        c >= 0,
    ensures
        resolved_before(sys, load, c) <= c,
    decreases c,
{
    if c > 0 {
        lemma_resolved_before_le(sys, load, c - 1);
    }
}

/// The node identity a sysroot crate gets, if its source resolves:
/// the number of nodes created before it.
pub open spec fn sysroot_id(sys: &Sysroot, load: &FileLoader, base: int, c: int) -> Option<u32> {
    if sysroot_resolvable(sys, load, c) {
        Some((base + resolved_before(sys, load, c)) as u32)
    } else {
        None
    }
}

/// The identity table of the whole sysroot.
pub open spec fn sysroot_ids(sys: &Sysroot, load: &FileLoader, base: int) -> Seq<Option<u32>> {
    Seq::new(sys.crates@.len(), |c: int| sysroot_id(sys, load, base, c))
}

/// The nodes the first `upto` sysroot crates produce, in order.
pub open spec fn spec_sysroot_roots(
    sys: &Sysroot,
    load: &FileLoader,
    cfg_pairs: Seq<(Seq<char>, Seq<Seq<char>>)>,
    upto: int,
) -> Seq<CrateRootView>
    decreases upto,
{
    if upto <= 0 {
        Seq::empty()
    } else {
        let prefix = spec_sysroot_roots(sys, load, cfg_pairs, upto - 1);
        match load.spec_load(sys.crates@[upto - 1].root@) {
            Some(fid) => prefix.push(
                CrateRootView {
                    file_id: fid,
                    edition: "2021"@,
                    display_name: Some(sys.crates@[upto - 1].name@),
                    cfg_options: cfg_pairs,
                    potential_cfg_options: cfg_pairs,
                    env: Seq::empty(),
                    proc_macro: Seq::empty(),
                },
            ),
            None => prefix,
        }
    }
}

/// The internal sysroot edges contributed by crate `c` for its first
/// `upto` dependencies: one edge per pair whose two endpoints resolve,
/// named after the dependency target.
pub open spec fn spec_crate_edges(
    sys: &Sysroot,
    ids: Seq<Option<u32>>,
    c: int,
    upto: int,
) -> Seq<DepView>
    decreases upto,
{
    if upto <= 0 {
        Seq::empty()
    } else {
        let prefix = spec_crate_edges(sys, ids, c, upto - 1);
        let d = sys.crates@[c].deps@[upto - 1] as int;
        match (ids[c], ids[d]) {
            (Some(f), Some(t)) => prefix.push(
                DepView { from: f, name: sys.crates@[d].name@, to: t },
            ),
            _ => prefix,
        }
    }
}

/// The internal sysroot edges of the first `upto` crates, in order.
pub open spec fn spec_sysroot_edges(sys: &Sysroot, ids: Seq<Option<u32>>, upto: int) -> Seq<
    DepView,
>
    decreases upto,
{
    if upto <= 0 {
        Seq::empty()
    } else {
        spec_sysroot_edges(sys, ids, upto - 1) + spec_crate_edges(
            sys,
            ids,
            upto - 1,
            sys.crates@[upto - 1].deps@.len() as int,
        )
    }
}

/// Every internal dependency of the sysroot names a crate with a
/// structurally valid name.
pub open spec fn sysroot_dep_names_valid(sys: &Sysroot) -> bool {
    forall|c: int, d: int|
        0 <= c < sys.crates@.len() && 0 <= d < sys.crates@[c].deps@.len()
            ==> is_valid_crate_name(
            sys.crates@[#[trigger] sys.crates@[c].deps@[d] as int].name@,
        )
}

/// Every public-dependency entry of the sysroot carries a structurally
/// valid name.
pub open spec fn sysroot_public_names_valid(sys: &Sysroot) -> bool {
    forall|p: int|
        0 <= p < sys.public_deps@.len() ==> is_valid_crate_name(
            (#[trigger] sys.public_deps@[p]).0@,
        )
}

/// Every crate marked public resolves to a source file.
pub open spec fn sysroot_public_resolvable(sys: &Sysroot, load: &FileLoader) -> bool {
    forall|p: int|
        0 <= p < sys.public_deps@.len() ==> sysroot_resolvable(
            sys,
            load,
            (#[trigger] sys.public_deps@[p]).1 as int,
        )
}

/// Imports the standard-library distribution: one node per sysroot crate
/// whose source resolves (unresolvable crates are skipped), then one edge
/// per internal dependency pair whose two endpoints both resolve.
/// Returns the public-dependency entries as (name, node identity) pairs,
/// and the identity of the macro-support crate if the sysroot marks one
/// and it resolved.
pub fn sysroot_to_crate_graph(
    crate_graph_json: &mut CrateGraphJson,
    sysroot: &Sysroot,
    rustc_cfg: &Vec<CfgFlag>,
    load: &FileLoader,
) -> (r: Result<(Vec<(String, u32)>, Option<u32>), BuildError>)
    requires
        sysroot.wf(),
        sysroot_public_resolvable(sysroot, load),
        crate::graph_json::graph_wf(old(crate_graph_json)@),
        old(crate_graph_json).roots@.len() + sysroot.crates@.len() < u32::MAX as usize,
    ensures
        r is Ok <==> sysroot_dep_names_valid(sysroot) && sysroot_public_names_valid(sysroot),
        r is Ok ==> crate::graph_json::graph_wf(final(crate_graph_json)@),
        r matches Ok(pl) ==> {
            let base = old(crate_graph_json)@.roots.len() as int;
            let ids = sysroot_ids(sysroot, load, base);
            let n = sysroot.crates@.len() as int;
            &&& final(crate_graph_json)@.roots == old(crate_graph_json)@.roots
                + spec_sysroot_roots(
                sysroot,
                load,
                spec_pairs(sysroot_base_cfg(rustc_cfg@)),
                n,
            )
            &&& final(crate_graph_json)@.deps == old(crate_graph_json)@.deps
                + spec_sysroot_edges(sysroot, ids, n)
            &&& pl.0@.len() == sysroot.public_deps@.len()
            &&& (forall|p: int|
                0 <= p < sysroot.public_deps@.len() ==> (#[trigger] pl.0@[p]).0@
                    == sysroot.public_deps@[p].0@ && Some(pl.0@[p].1) == ids[(
                sysroot.public_deps@[p]).1 as int])
            &&& pl.1 == (match sysroot.proc_macro {
                Some(i) => ids[i as int],
                None => None::<u32>,
            })
        },
{
    let ghost old_roots = crate_graph_json@.roots;
    let ghost old_deps = crate_graph_json@.deps;
    let base = crate_graph_json.roots.len();

    let mut cfg_options = CfgOptions::default();
    cfg_options.extend(rustc_cfg);
    let ghost cfgp = spec_pairs(sysroot_base_cfg(rustc_cfg@));

    // One node per resolvable sysroot crate, recording each crate's
    // identity (or absence).
    let mut ids: Vec<Option<u32>> = Vec::new();
    let mut c: usize = 0;
    while c < sysroot.crates.len()
        invariant
            0 <= c <= sysroot.crates@.len(),
            sysroot.wf(),
            base == old_roots.len(),
            old_roots == old(crate_graph_json)@.roots,
            old_deps == old(crate_graph_json)@.deps,
            base + sysroot.crates@.len() < u32::MAX as usize,
            cfg_options@ == sysroot_base_cfg(rustc_cfg@),
            cfgp == spec_pairs(sysroot_base_cfg(rustc_cfg@)),
            ids@.len() == c,
            forall|x: int| 0 <= x < c ==> ids@[x] == sysroot_id(sysroot, load, base as int, x),
            crate_graph_json@.roots == old_roots + spec_sysroot_roots(sysroot, load, cfgp, c as int),
            crate_graph_json@.deps == old_deps,
            crate_graph_json.roots@.len() == base + resolved_before(sysroot, load, c as int),
            crate::graph_json::graph_wf(crate_graph_json@),
        decreases sysroot.crates@.len() - c,
    {
        proof {
            lemma_resolved_before_le(sysroot, load, c as int);
        }
        match load.load(sysroot.crates[c].root.as_str()) {
            Some(file_id) => {
                let name = sysroot.crates[c].name.clone();
                let node_cfg = cfg_options.clone();
                let node_potential = cfg_options.clone();
                let env = Env::default();
                let id = crate_graph_json.add_crate_root(
                    file_id,
                    Edition::current(),
                    Some(name),
                    node_cfg,
                    node_potential,
                    env,
                    Vec::new(),
                );
                proof {
                    assert(str_views(Seq::<String>::empty()) =~= Seq::<Seq<char>>::empty());
                    assert(id == base + resolved_before(sysroot, load, c as int));
                    assert(sysroot_id(sysroot, load, base as int, c as int) == Some(id));
                }
                ids.push(Some(id));
            },
            None => {
                ids.push(None);
                proof {
                    assert(sysroot_id(sysroot, load, base as int, c as int) == None::<u32>);
                }
            },
        }
        proof {
            assert(crate_graph_json@.roots.len() == crate_graph_json.roots@.len());
            assert(resolved_before(sysroot, load, c + 1) == resolved_before(
                sysroot,
                load,
                c as int,
            ) + if sysroot_resolvable(sysroot, load, c as int) {
                1nat
            } else {
                0nat
            });
            assert(crate_graph_json@.roots =~= old_roots + spec_sysroot_roots(
                sysroot,
                load,
                cfgp,
                c + 1,
            ));
        }
        c = c + 1;
    }

    // One edge per internal dependency pair with both endpoints present.
    let ghost idsv = ids@;
    let ghost n_crates = sysroot.crates@.len() as int;
    proof {
        lemma_sysroot_roots_len(sysroot, load, cfgp, n_crates);
        assert forall|x: int|
            0 <= x < idsv.len() && (#[trigger] idsv[x]) is Some implies idsv[x]->0
            < crate_graph_json@.roots.len() by {
            assert(idsv[x] == sysroot_id(sysroot, load, base as int, x));
            assert(sysroot_resolvable(sysroot, load, x));
            lemma_resolved_before_mono(sysroot, load, x + 1, n_crates);
            lemma_resolved_before_le(sysroot, load, x);
            assert(resolved_before(sysroot, load, x + 1) == resolved_before(sysroot, load, x)
                + 1);
            assert(base + resolved_before(sysroot, load, x) < base + resolved_before(
                sysroot,
                load,
                n_crates,
            ));
        }
    }
    let mut c2: usize = 0;
    while c2 < sysroot.crates.len()
        invariant
            0 <= c2 <= sysroot.crates@.len(),
            sysroot.wf(),
            idsv == ids@,
            ids@.len() == sysroot.crates@.len(),
            crate::graph_json::graph_wf(crate_graph_json@),
            forall|x: int|
                0 <= x < idsv.len() && (#[trigger] idsv[x]) is Some ==> idsv[x]->0
                    < crate_graph_json@.roots.len(),
            crate_graph_json@.roots == old(crate_graph_json)@.roots + spec_sysroot_roots(
                sysroot,
                load,
                cfgp,
                sysroot.crates@.len() as int,
            ),
            crate_graph_json@.deps == old(crate_graph_json)@.deps + spec_sysroot_edges(
                sysroot,
                idsv,
                c2 as int,
            ),
            forall|x: int, y: int|
                0 <= x < c2 && 0 <= y < sysroot.crates@[x].deps@.len() ==> is_valid_crate_name(
                    sysroot.crates@[#[trigger] sysroot.crates@[x].deps@[y] as int].name@,
                ),
        decreases sysroot.crates@.len() - c2,
    {
        let mut d: usize = 0;
        while d < sysroot.crates[c2].deps.len()
            invariant
                0 <= c2 < sysroot.crates@.len(),
                0 <= d <= sysroot.crates@[c2 as int].deps@.len(),
                sysroot.wf(),
                idsv == ids@,
                ids@.len() == sysroot.crates@.len(),
                crate::graph_json::graph_wf(crate_graph_json@),
                forall|x: int|
                    0 <= x < idsv.len() && (#[trigger] idsv[x]) is Some ==> idsv[x]->0
                        < crate_graph_json@.roots.len(),
                crate_graph_json@.roots == old(crate_graph_json)@.roots + spec_sysroot_roots(
                    sysroot,
                    load,
                    cfgp,
                    sysroot.crates@.len() as int,
                ),
                crate_graph_json@.deps == old(crate_graph_json)@.deps + spec_sysroot_edges(
                    sysroot,
                    idsv,
                    c2 as int,
                ) + spec_crate_edges(sysroot, idsv, c2 as int, d as int),
                forall|x: int, y: int|
                    0 <= x < c2 && 0 <= y < sysroot.crates@[x].deps@.len() ==> is_valid_crate_name(
                        sysroot.crates@[#[trigger] sysroot.crates@[x].deps@[y] as int].name@,
                    ),
                forall|y: int|
                    0 <= y < d ==> is_valid_crate_name(
                        sysroot.crates@[
                            #[trigger] sysroot.crates@[c2 as int].deps@[y] as int
                        ].name@,
                    ),
            decreases sysroot.crates@[c2 as int].deps@.len() - d,
        {
            let to_idx = sysroot.crates[c2].deps[d];
            if !crate_name_ok(sysroot.crates[to_idx].name.as_str()) {
                proof {
                    assert(!is_valid_crate_name(
                        sysroot.crates@[sysroot.crates@[c2 as int].deps@[d as int] as int].name@,
                    ));
                    assert(!sysroot_dep_names_valid(sysroot));
                }
                return Err(BuildError::InvalidCrateName(sysroot.crates[to_idx].name.clone()));
            }
            let name = sysroot.crates[to_idx].name.clone();
            match (ids[c2], ids[to_idx]) {
                (Some(f), Some(t)) => {
                    add_dep(crate_graph_json, f, name, t);
                },
                _ => {},
            }
            proof {
                assert(crate_graph_json@.deps =~= old(crate_graph_json)@.deps
                    + spec_sysroot_edges(sysroot, idsv, c2 as int) + spec_crate_edges(
                    sysroot,
                    idsv,
                    c2 as int,
                    d + 1,
                ));
            }
            d = d + 1;
        }
        proof {
            assert(spec_sysroot_edges(sysroot, idsv, c2 + 1) == spec_sysroot_edges(
                sysroot,
                idsv,
                c2 as int,
            ) + spec_crate_edges(
                sysroot,
                idsv,
                c2 as int,
                sysroot.crates@[c2 as int].deps@.len() as int,
            ));
        }
        c2 = c2 + 1;
    }

    // The public-dependency entries, mapped to node identities.
    let mut public_deps: Vec<(String, u32)> = Vec::new();
    let mut p: usize = 0;
    while p < sysroot.public_deps.len()
        invariant
            0 <= p <= sysroot.public_deps@.len(),
            sysroot.wf(),
            sysroot_public_resolvable(sysroot, load),
            idsv == ids@,
            ids@.len() == sysroot.crates@.len(),
            base == old(crate_graph_json)@.roots.len(),
            forall|x: int|
                0 <= x < ids@.len() ==> ids@[x] == sysroot_id(sysroot, load, base as int, x),
            public_deps@.len() == p,
            forall|q: int|
                0 <= q < p ==> (#[trigger] public_deps@[q]).0@ == sysroot.public_deps@[q].0@
                    && Some(public_deps@[q].1) == ids@[sysroot.public_deps@[q].1 as int],
            forall|q: int|
                0 <= q < p ==> is_valid_crate_name((#[trigger] sysroot.public_deps@[q]).0@),
        decreases sysroot.public_deps@.len() - p,
    {
        let entry_name = &sysroot.public_deps[p].0;
        let entry_idx = sysroot.public_deps[p].1;
        if !crate_name_ok(entry_name.as_str()) {
            proof {
                assert(!is_valid_crate_name(sysroot.public_deps@[p as int].0@));
                assert(!sysroot_public_names_valid(sysroot));
            }
            return Err(BuildError::InvalidCrateName(entry_name.clone()));
        }
        match ids[entry_idx] {
            Some(id) => {
                public_deps.push((entry_name.clone(), id));
            },
            None => {
                proof {
                    assert(sysroot_resolvable(sysroot, load, entry_idx as int));
                    assert(false);
                }
            },
        }
        p = p + 1;
    }

    let libproc_macro: Option<u32> = match sysroot.proc_macro {
        Some(i) => ids[i],
        None => None,
    };

    proof {
        assert(ids@ =~= sysroot_ids(sysroot, load, base as int));
        if !(sysroot_dep_names_valid(sysroot) && sysroot_public_names_valid(sysroot)) {
            if !sysroot_dep_names_valid(sysroot) {
                let (x, y): (int, int) = choose|x: int, y: int|
                    0 <= x < sysroot.crates@.len() && 0 <= y < sysroot.crates@[x].deps@.len()
                        && !is_valid_crate_name(
                        sysroot.crates@[#[trigger] sysroot.crates@[x].deps@[y] as int].name@,
                    );
                assert(false);
            } else {
                let q: int = choose|q: int|
                    0 <= q < sysroot.public_deps@.len() && !is_valid_crate_name(
                        (#[trigger] sysroot.public_deps@[q]).0@,
                    );
                assert(false);
            }
        }
    }
    Ok((public_deps, libproc_macro))
}

} // verus!

verus! {

/// Every declared dependency name of a workspace is structurally valid.
pub open spec fn cargo_dep_names_valid(ws: &CargoWorkspace) -> bool {
    forall|p: int, d: int|
        0 <= p < ws.packages@.len() && 0 <= d < ws.packages@[p].dependencies@.len()
            ==> is_valid_crate_name((#[trigger] ws.packages@[p].dependencies@[d]).name@)
}

/// The build/non-build separation rule: a dependency of kind Build is
/// attached exactly to build-script crates, every other kind exactly to
/// non-build-script crates.
pub open spec fn dep_kind_allows(dk: DepKind, tk: TargetKind) -> bool {
    (dk == DepKind::Build) == (tk == TargetKind::BuildScript)
}

/// The edges one declared dependency contributes, walking the first
/// `upto` crates of its package: one edge per crate passing the
/// separation rule, provided the dependency's library crate is known.
pub open spec fn spec_dep_edges(
    dep: PackageDependency,
    lib: Option<u32>,
    crates: Seq<(u32, TargetKind)>,
    upto: int,
) -> Seq<DepView>
    decreases upto,
{
    if upto <= 0 {
        Seq::empty()
    } else {
        let prefix = spec_dep_edges(dep, lib, crates, upto - 1);
        match lib {
            Some(to) => if dep_kind_allows(dep.kind, crates[upto - 1].1) {
                prefix.push(DepView { from: crates[upto - 1].0, name: dep.name@, to })
            } else {
                prefix
            },
            None => prefix,
        }
    }
}

/// The edges the first `upto` declared dependencies of one package
/// contribute.
pub open spec fn spec_pkg_phase2_edges(
    deps: Seq<PackageDependency>,
    libs: Seq<Option<u32>>,
    crates: Seq<(u32, TargetKind)>,
    upto: int,
) -> Seq<DepView>
    decreases upto,
{
    if upto <= 0 {
        Seq::empty()
    } else {
        spec_pkg_phase2_edges(deps, libs, crates, upto - 1) + spec_dep_edges(
            deps[upto - 1],
            libs[deps[upto - 1].pkg as int],
            crates,
            crates.len() as int,
        )
    }
}

/// The inter-package edges of the first `upto` packages.
pub open spec fn spec_phase2_edges(
    cargo: &CargoWorkspace,
    libs: Seq<Option<u32>>,
    table: Seq<Seq<(u32, TargetKind)>>,
    upto: int,
) -> Seq<DepView>
    decreases upto,
{
    if upto <= 0 {
        Seq::empty()
    } else {
        spec_phase2_edges(cargo, libs, table, upto - 1) + spec_pkg_phase2_edges(
            cargo.packages@[upto - 1].dependencies@,
            libs,
            table[upto - 1],
            cargo.packages@[upto - 1].dependencies@.len() as int,
        )
    }
}

/// An edge one dependency contributes is accounted for: some crate of
/// the package generated it, and the pair satisfies the separation rule.
pub open spec fn dep_edge_ok(
    dep: PackageDependency,
    lib: Option<u32>,
    crates: Seq<(u32, TargetKind)>,
    upto: int,
    e: DepView,
) -> bool {
    exists|c: int|
        0 <= c < upto && dep_kind_allows(dep.kind, (#[trigger] crates[c]).1) && lib == Some(e.to)
            && e.from == crates[c].0 && e.name == dep.name@
}

/// An inter-package edge is accounted for: some package, declared
/// dependency and crate generate it, and that triple satisfies the
/// build/non-build separation rule.
pub open spec fn phase2_edge_ok(
    cargo: &CargoWorkspace,
    libs: Seq<Option<u32>>,
    table: Seq<Seq<(u32, TargetKind)>>,
    e: DepView,
) -> bool {
    exists|p: int, d: int|
        #![trigger cargo.packages@[p].dependencies@[d]]
        {
            &&& 0 <= p < cargo.packages@.len()
            &&& 0 <= d < cargo.packages@[p].dependencies@.len()
            &&& dep_edge_ok(
                cargo.packages@[p].dependencies@[d],
                libs[cargo.packages@[p].dependencies@[d].pkg as int],
                table[p],
                table[p].len() as int,
                e,
            )
        }
}

/// Every edge one dependency contributes is accounted for by the crate
/// that generated it.
proof fn lemma_dep_edges_ok(
    dep: PackageDependency,
    lib: Option<u32>,
    crates: Seq<(u32, TargetKind)>,
    upto: int,
)
    requires
        0 <= upto <= crates.len(),
    ensures
        forall|k: int|
            0 <= k < spec_dep_edges(dep, lib, crates, upto).len() ==> dep_edge_ok(
                dep,
                lib,
                crates,
                upto,
                #[trigger] spec_dep_edges(dep, lib, crates, upto)[k],
            ),
    decreases upto,
{
    if upto > 0 {
        lemma_dep_edges_ok(dep, lib, crates, upto - 1);
        let cur = spec_dep_edges(dep, lib, crates, upto);
        let prefix = spec_dep_edges(dep, lib, crates, upto - 1);
        assert forall|k: int| 0 <= k < cur.len() implies dep_edge_ok(
            dep,
            lib,
            crates,
            upto,
            cur[k],
        ) by {
            if k < prefix.len() {
                assert(cur[k] == prefix[k]);
                assert(dep_edge_ok(dep, lib, crates, upto - 1, prefix[k]));
                let c = choose|c: int|
                    0 <= c < upto - 1 && dep_kind_allows(dep.kind, (#[trigger] crates[c]).1)
                        && lib == Some(prefix[k].to) && prefix[k].from == crates[c].0
                        && prefix[k].name == dep.name@;
                assert(0 <= c < upto && dep_kind_allows(dep.kind, crates[c].1) && lib == Some(
                    cur[k].to,
                ) && cur[k].from == crates[c].0 && cur[k].name == dep.name@);
            } else {
                let c = upto - 1;
                assert(0 <= c < upto && dep_kind_allows(dep.kind, crates[c].1) && lib == Some(
                    cur[k].to,
                ) && cur[k].from == crates[c].0 && cur[k].name == dep.name@);
            }
        }
    }
}

/// Every inter-package edge of the snapshot is accounted for by a
/// package, dependency and crate satisfying the separation rule: no edge
/// of kind Build leaves a non-build-script crate, and no edge of another
/// kind leaves a build-script crate.
pub proof fn lemma_phase2_edges_bipartite(
    cargo: &CargoWorkspace,
    libs: Seq<Option<u32>>,
    table: Seq<Seq<(u32, TargetKind)>>,
    upto: int,
)
    requires
        0 <= upto <= cargo.packages@.len(),
        table.len() == cargo.packages@.len(),
    ensures
        forall|k: int|
            0 <= k < spec_phase2_edges(cargo, libs, table, upto).len() ==> phase2_edge_ok(
                cargo,
                libs,
                table,
                #[trigger] spec_phase2_edges(cargo, libs, table, upto)[k],
            ),
    decreases upto,
{
    if upto > 0 {
        lemma_phase2_edges_bipartite(cargo, libs, table, upto - 1);
        let cur = spec_phase2_edges(cargo, libs, table, upto);
        let prefix = spec_phase2_edges(cargo, libs, table, upto - 1);
        assert forall|k: int| 0 <= k < cur.len() implies phase2_edge_ok(
            cargo,
            libs,
            table,
            cur[k],
        ) by {
            if k < prefix.len() {
                assert(cur[k] == prefix[k]);
                assert(phase2_edge_ok(cargo, libs, table, prefix[k]));
            } else {
                lemma_pkg_phase2_edge_ok(
                    cargo,
                    libs,
                    table,
                    upto - 1,
                    cargo.packages@[upto - 1].dependencies@.len() as int,
                    k - prefix.len(),
                );
                assert(cur[k] == spec_pkg_phase2_edges(
                    cargo.packages@[upto - 1].dependencies@,
                    libs,
                    table[upto - 1],
                    cargo.packages@[upto - 1].dependencies@.len() as int,
                )[k - prefix.len()]);
            }
        }
    }
}

/// Every edge contributed by one package's first `upto_d` dependencies
/// is accounted for.
proof fn lemma_pkg_phase2_edge_ok(
    cargo: &CargoWorkspace,
    libs: Seq<Option<u32>>,
    table: Seq<Seq<(u32, TargetKind)>>,
    p: int,
    upto_d: int,
    k: int,
)
    requires
        0 <= p < cargo.packages@.len(),
        table.len() == cargo.packages@.len(),
        0 <= upto_d <= cargo.packages@[p].dependencies@.len(),
        0 <= k < spec_pkg_phase2_edges(
            cargo.packages@[p].dependencies@,
            libs,
            table[p],
            upto_d,
        ).len(),
    ensures
        phase2_edge_ok(
            cargo,
            libs,
            table,
            spec_pkg_phase2_edges(cargo.packages@[p].dependencies@, libs, table[p], upto_d)[k],
        ),
    decreases upto_d,
{
    let deps = cargo.packages@[p].dependencies@;
    let crates = table[p];
    let cur = spec_pkg_phase2_edges(deps, libs, crates, upto_d);
    let prefix = spec_pkg_phase2_edges(deps, libs, crates, upto_d - 1);
    if k < prefix.len() {
        lemma_pkg_phase2_edge_ok(cargo, libs, table, p, upto_d - 1, k);
    } else {
        let dep = deps[upto_d - 1];
        let tail = spec_dep_edges(dep, libs[dep.pkg as int], crates, crates.len() as int);
        lemma_dep_edges_ok(dep, libs[dep.pkg as int], crates, crates.len() as int);
        assert(cur[k] == tail[k - prefix.len()]);
        assert(dep_edge_ok(dep, libs[dep.pkg as int], crates, crates.len() as int, cur[k]));
        assert(0 <= p < cargo.packages@.len() && 0 <= upto_d - 1
            < cargo.packages@[p].dependencies@.len() && dep_edge_ok(
            cargo.packages@[p].dependencies@[upto_d - 1],
            libs[cargo.packages@[p].dependencies@[upto_d - 1].pkg as int],
            table[p],
            table[p].len() as int,
            cur[k],
        ));
    }
}

/// Adds one edge from every crate of every package to the library crate
/// of each package it declares a dependency on, where that library is
/// known — respecting the build/non-build separation rule. Fails if and
/// only if some declared dependency name is structurally invalid.
pub fn add_inter_package_deps(
    graph: &mut CrateGraphJson,
    cargo: &CargoWorkspace,
    pkg_to_lib_crate: &Vec<Option<u32>>,
    pkg_crates: &Vec<Vec<(u32, TargetKind)>>,
) -> (r: Result<(), BuildError>)
    requires
        cargo.wf(),
        pkg_to_lib_crate@.len() == cargo.packages@.len(),
        pkg_crates@.len() == cargo.packages@.len(),
        crate::graph_json::graph_wf(old(graph)@),
        forall|p: int, c: int|
            0 <= p < pkg_crates@.len() && 0 <= c < pkg_crates@[p]@.len()
                ==> (#[trigger] pkg_crates@[p]@[c]).0 < old(graph)@.roots.len(),
        forall|x: int|
            0 <= x < pkg_to_lib_crate@.len() ==> ((#[trigger] pkg_to_lib_crate@[x]) matches Some(
                id,
            ) ==> id < old(graph)@.roots.len()),
    ensures
        final(graph)@.roots == old(graph)@.roots,
        crate::graph_json::graph_wf(final(graph)@),
        r is Ok <==> cargo_dep_names_valid(cargo),
        r matches Ok(u) ==> final(graph)@.deps == old(graph)@.deps + spec_phase2_edges(
            cargo,
            pkg_to_lib_crate@,
            pkg_crates@.map_values(|v: Vec<(u32, TargetKind)>| v@),
            cargo.packages@.len() as int,
        ),
{
    let ghost libs = pkg_to_lib_crate@;
    let ghost table = pkg_crates@.map_values(|v: Vec<(u32, TargetKind)>| v@);
    let ghost old_deps = graph@.deps;
    let mut p: usize = 0;
    while p < cargo.packages.len()
        invariant
            0 <= p <= cargo.packages@.len(),
            cargo.wf(),
            libs == pkg_to_lib_crate@,
            table == pkg_crates@.map_values(|v: Vec<(u32, TargetKind)>| v@),
            pkg_to_lib_crate@.len() == cargo.packages@.len(),
            pkg_crates@.len() == cargo.packages@.len(),
            old_deps == old(graph)@.deps,
            graph@.roots == old(graph)@.roots,
            crate::graph_json::graph_wf(graph@),
            forall|x: int, y: int|
                0 <= x < pkg_crates@.len() && 0 <= y < pkg_crates@[x]@.len()
                    ==> (#[trigger] pkg_crates@[x]@[y]).0 < old(graph)@.roots.len(),
            forall|x: int|
                0 <= x < pkg_to_lib_crate@.len() ==> ((#[trigger] pkg_to_lib_crate@[x]) matches Some(
                    id,
                ) ==> id < old(graph)@.roots.len()),
            graph@.deps == old_deps + spec_phase2_edges(cargo, libs, table, p as int),
            forall|x: int, y: int|
                0 <= x < p && 0 <= y < cargo.packages@[x].dependencies@.len()
                    ==> is_valid_crate_name(
                    (#[trigger] cargo.packages@[x].dependencies@[y]).name@,
                ),
        decreases cargo.packages@.len() - p,
    {
        let ghost pdeps = cargo.packages@[p as int].dependencies@;
        let mut d: usize = 0;
        while d < cargo.packages[p].dependencies.len()
            invariant
                0 <= p < cargo.packages@.len(),
                0 <= d <= pdeps.len(),
                cargo.wf(),
                pdeps == cargo.packages@[p as int].dependencies@,
                libs == pkg_to_lib_crate@,
                table == pkg_crates@.map_values(|v: Vec<(u32, TargetKind)>| v@),
                pkg_to_lib_crate@.len() == cargo.packages@.len(),
                pkg_crates@.len() == cargo.packages@.len(),
                old_deps == old(graph)@.deps,
                graph@.roots == old(graph)@.roots,
                crate::graph_json::graph_wf(graph@),
                forall|x: int, y: int|
                    0 <= x < pkg_crates@.len() && 0 <= y < pkg_crates@[x]@.len()
                        ==> (#[trigger] pkg_crates@[x]@[y]).0 < old(graph)@.roots.len(),
                forall|x: int|
                    0 <= x < pkg_to_lib_crate@.len()
                        ==> ((#[trigger] pkg_to_lib_crate@[x]) matches Some(id) ==> id < old(
                        graph,
                    )@.roots.len()),
                graph@.deps == old_deps + spec_phase2_edges(cargo, libs, table, p as int)
                    + spec_pkg_phase2_edges(pdeps, libs, table[p as int], d as int),
                forall|x: int, y: int|
                    0 <= x < p && 0 <= y < cargo.packages@[x].dependencies@.len()
                        ==> is_valid_crate_name(
                        (#[trigger] cargo.packages@[x].dependencies@[y]).name@,
                    ),
                forall|y: int| 0 <= y < d ==> is_valid_crate_name((#[trigger] pdeps[y]).name@),
            decreases pdeps.len() - d,
        {
            let dep_name = &cargo.packages[p].dependencies[d].name;
            if !crate_name_ok(dep_name.as_str()) {
                proof {
                    assert(!is_valid_crate_name(pdeps[d as int].name@));
                    assert(!cargo_dep_names_valid(cargo));
                }
                return Err(BuildError::InvalidCrateName(dep_name.clone()));
            }
            let dep_pkg = cargo.packages[p].dependencies[d].pkg;
            let ghost dv = pdeps[d as int];
            match pkg_to_lib_crate[dep_pkg] {
                Some(to) => {
                    let ghost crates = table[p as int];
                    let mut c: usize = 0;
                    while c < pkg_crates[p].len()
                        invariant
                            0 <= p < cargo.packages@.len(),
                            0 <= d < pdeps.len(),
                            0 <= c <= crates.len(),
                            cargo.wf(),
                            pdeps == cargo.packages@[p as int].dependencies@,
                            dv == pdeps[d as int],
                            dep_pkg == dv.pkg,
                            libs == pkg_to_lib_crate@,
                            table == pkg_crates@.map_values(|v: Vec<(u32, TargetKind)>| v@),
                            pkg_to_lib_crate@.len() == cargo.packages@.len(),
                            pkg_crates@.len() == cargo.packages@.len(),
                            crates == table[p as int],
                            crates == pkg_crates@[p as int]@,
                            dep_pkg < pkg_to_lib_crate@.len(),
                            libs[dv.pkg as int] == Some(to),
                            dep_name@ == dv.name@,
                            old_deps == old(graph)@.deps,
                            graph@.roots == old(graph)@.roots,
                            crate::graph_json::graph_wf(graph@),
                            forall|x: int, y: int|
                                0 <= x < pkg_crates@.len() && 0 <= y < pkg_crates@[x]@.len()
                                    ==> (#[trigger] pkg_crates@[x]@[y]).0 < old(graph)@.roots.len(),
                            forall|x: int|
                                0 <= x < pkg_to_lib_crate@.len()
                                    ==> ((#[trigger] pkg_to_lib_crate@[x]) matches Some(id) ==> id
                                    < old(graph)@.roots.len()),
                            graph@.deps == old_deps + spec_phase2_edges(cargo, libs, table, p as int)
                                + spec_pkg_phase2_edges(pdeps, libs, crates, d as int)
                                + spec_dep_edges(dv, libs[dv.pkg as int], crates, c as int),
                        decreases crates.len() - c,
                    {
                        let from = pkg_crates[p][c].0;
                        let kind = pkg_crates[p][c].1;
                        let is_build_dep = cargo.packages[p].dependencies[d].kind
                            == DepKind::Build;
                        let is_build_script = kind == TargetKind::BuildScript;
                        if is_build_dep == is_build_script {
                            let name = dep_name.clone();
                            add_dep(graph, from, name, to);
                            proof {
                                assert(dep_kind_allows(dv.kind, crates[c as int].1));
                                assert(from == crates[c as int].0);
                                assert(graph@.deps =~= old_deps + spec_phase2_edges(
                                    cargo,
                                    libs,
                                    table,
                                    p as int,
                                ) + spec_pkg_phase2_edges(pdeps, libs, crates, d as int)
                                    + spec_dep_edges(dv, libs[dv.pkg as int], crates, c + 1));
                            }
                        } else {
                            proof {
                                assert(!dep_kind_allows(dv.kind, crates[c as int].1));
                            }
                            proof {
                                assert(spec_dep_edges(dv, libs[dv.pkg as int], crates, c + 1)
                                    == spec_dep_edges(dv, libs[dv.pkg as int], crates, c as int));
                            }
                        }
                        c = c + 1;
                    }
                    proof {
                        assert(spec_pkg_phase2_edges(pdeps, libs, crates, d + 1)
                            == spec_pkg_phase2_edges(pdeps, libs, crates, d as int)
                            + spec_dep_edges(dv, libs[dv.pkg as int], crates, crates.len() as int));
                        assert(graph@.deps =~= old_deps + spec_phase2_edges(
                            cargo,
                            libs,
                            table,
                            p as int,
                        ) + spec_pkg_phase2_edges(pdeps, libs, table[p as int], d + 1));
                    }
                },
                None => {
                    proof {
                        assert(libs[dv.pkg as int] == None::<u32>);
                        lemma_dep_edges_none(dv, table[p as int], table[p as int].len() as int);
                        assert(spec_pkg_phase2_edges(pdeps, libs, table[p as int], d + 1)
                            == spec_pkg_phase2_edges(pdeps, libs, table[p as int], d as int));
                        assert(graph@.deps =~= old_deps + spec_phase2_edges(
                            cargo,
                            libs,
                            table,
                            p as int,
                        ) + spec_pkg_phase2_edges(pdeps, libs, table[p as int], d + 1));
                    }
                },
            }
            d = d + 1;
        }
        proof {
            assert(spec_phase2_edges(cargo, libs, table, p + 1) == spec_phase2_edges(
                cargo,
                libs,
                table,
                p as int,
            ) + spec_pkg_phase2_edges(
                cargo.packages@[p as int].dependencies@,
                libs,
                table[p as int],
                cargo.packages@[p as int].dependencies@.len() as int,
            ));
        }
        p = p + 1;
    }
    Ok(())
}

/// A dependency whose library crate is unknown contributes no edges.
proof fn lemma_dep_edges_none(
    dep: PackageDependency,
    crates: Seq<(u32, TargetKind)>,
    upto: int,
)
    ensures
        spec_dep_edges(dep, None::<u32>, crates, upto) == Seq::<DepView>::empty(),
    decreases upto,
{
    if upto > 0 {
        lemma_dep_edges_none(dep, crates, upto - 1);
    }
}

} // verus!

verus! {

/// Total number of targets of the first `p` packages.
pub open spec fn total_targets_before(pkgs: Seq<PackageData>, p: int) -> nat
    decreases p,
{
    if p <= 0 {
        0
    } else {
        total_targets_before(pkgs, p - 1) + pkgs[p - 1].targets@.len()
    }
}

/// Total number of targets of the visited packages among the first `p`.
pub open spec fn visited_targets(pkgs: Seq<PackageData>, visited: Seq<bool>, p: int) -> nat
    decreases p,
{
    if p <= 0 {
        0
    } else {
        visited_targets(pkgs, visited, p - 1) + if visited[p - 1] {
            pkgs[p - 1].targets@.len()
        } else {
            0nat
        }
    }
}

/// Visited packages never account for more targets than all packages.
pub proof fn lemma_visited_le_total(pkgs: Seq<PackageData>, visited: Seq<bool>, p: int)
    ensures
        visited_targets(pkgs, visited, p) <= total_targets_before(pkgs, p),
    decreases p,
{
    if p > 0 {
        lemma_visited_le_total(pkgs, visited, p - 1);
    }
}

/// Marking one unvisited package adds exactly its target count.
pub proof fn lemma_visited_targets_update(
    pkgs: Seq<PackageData>,
    visited: Seq<bool>,
    j: int,
    p: int,
)
    requires
        0 <= j < visited.len(),
        !visited[j],
        p <= visited.len(),
    ensures
        visited_targets(pkgs, visited.update(j, true), p) == visited_targets(pkgs, visited, p)
            + if j < p {
            pkgs[j].targets@.len()
        } else {
            0nat
        },
    decreases p,
{
    if p > 0 {
        lemma_visited_targets_update(pkgs, visited, j, p - 1);
    }
}

/// How many of the first `p` packages are unvisited.
pub open spec fn count_unvisited(visited: Seq<bool>, p: int) -> nat
    decreases p,
{
    if p <= 0 {
        0
    } else {
        count_unvisited(visited, p - 1) + if visited[p - 1] {
            0nat
        } else {
            1nat
        }
    }
}

/// Marking one unvisited package lowers the unvisited count by one.
pub proof fn lemma_count_unvisited_update(visited: Seq<bool>, j: int, p: int)
    requires
        0 <= j < p <= visited.len(),
        !visited[j],
    ensures
        count_unvisited(visited.update(j, true), p) + 1 == count_unvisited(visited, p),
    decreases p,
{
    if p > 0 {
        if j == p - 1 {
            assert(forall|x: int|
                0 <= x < p - 1 ==> visited.update(j, true)[x] == visited[x]);
            lemma_count_unvisited_same(visited, visited.update(j, true), p - 1);
        } else {
            lemma_count_unvisited_update(visited, j, p - 1);
        }
    }
}

/// The unvisited count only reads the first `p` entries.
pub proof fn lemma_count_unvisited_same(a: Seq<bool>, b: Seq<bool>, p: int)
    requires
        forall|x: int| 0 <= x < p ==> a[x] == b[x],
    ensures
        count_unvisited(a, p) == count_unvisited(b, p),
    decreases p,
{
    if p > 0 {
        lemma_count_unvisited_same(a, b, p - 1);
    }
}

/// A private-toolchain attach edge is accounted for: it goes from a
/// crate of an opted-in package to the library of a toolchain package,
/// under that package's dash-normalized name.
pub open spec fn rustc_attach_edge_ok(
    cargo: &CargoWorkspace,
    table: Seq<Seq<(u32, TargetKind)>>,
    rustc_workspace: &CargoWorkspace,
    rustc_libs: Seq<Option<u32>>,
    e: DepView,
) -> bool {
    exists|rp: int, p: int, c: int|
        #![trigger rustc_libs[rp], table[p][c]]
        {
            &&& 0 <= rp < rustc_workspace.packages@.len()
            &&& 0 <= p < cargo.packages@.len()
            &&& 0 <= c < table[p].len()
            &&& rustc_libs[rp] == Some(e.to)
            &&& e.name == crate::crate_name::spec_normalize_dashes(
                rustc_workspace.packages@[rp].name@,
            )
            &&& cargo.packages@[p].metadata.rustc_private
            &&& e.from == table[p][c].0
        }
}

/// Some edge of the snapshot leaves `from` under `name`.
pub open spec fn edge_present(deps: Seq<DepView>, from: u32, name: Seq<char>) -> bool {
    exists|k: int|
        0 <= k < deps.len() && (#[trigger] deps[k]).from == from && deps[k].name == name
}

/// A present edge stays present as edges are appended.
pub proof fn lemma_edge_present_mono(d1: Seq<DepView>, d2: Seq<DepView>, from: u32, name: Seq<char>)
    requires
        edge_present(d1, from, name),
        d1.is_prefix_of(d2),
    ensures
        edge_present(d2, from, name),
{
    let k = choose|k: int|
        0 <= k < d1.len() && (#[trigger] d1[k]).from == from && d1[k].name == name;
    assert(d1 =~= d2.subrange(0, d1.len() as int));
    assert(d2[k] == d1[k]);
}

/// The snapshot holds the exact edge.
pub open spec fn edge_present_to(deps: Seq<DepView>, e: DepView) -> bool {
    exists|k: int| 0 <= k < deps.len() && (#[trigger] deps[k]) == e
}

/// A present edge stays present as edges are appended.
pub proof fn lemma_edge_present_to_mono(d1: Seq<DepView>, d2: Seq<DepView>, e: DepView)
    requires
        edge_present_to(d1, e),
        d1.is_prefix_of(d2),
    ensures
        edge_present_to(d2, e),
{
    let k = choose|k: int| 0 <= k < d1.len() && (#[trigger] d1[k]) == e;
    assert(d1 =~= d2.subrange(0, d1.len() as int));
    assert(d2[k] == d1[k]);
}

/// The public sysroot edge a node owes for one public entry.
pub open spec fn spec_public_edge_at(pubs: Seq<(String, u32)>, i: int, q: int) -> DepView {
    DepView { from: i as u32, name: pubs[q].0@, to: pubs[q].1 }
}

/// Every node the importer created carries its public sysroot edges.
pub open spec fn imported_publics_done(
    deps: Seq<DepView>,
    pubs: Seq<(String, u32)>,
    lo: int,
    hi: int,
) -> bool {
    forall|i: int, q: int|
        lo <= i < hi && 0 <= q < pubs.len() ==> edge_present_to(
            deps,
            #[trigger] spec_public_edge_at(pubs, i, q),
        )
}

/// Covered nodes stay covered as edges are appended.
pub proof fn lemma_imported_publics_mono(
    d1: Seq<DepView>,
    d2: Seq<DepView>,
    pubs: Seq<(String, u32)>,
    lo: int,
    hi: int,
)
    requires
        imported_publics_done(d1, pubs, lo, hi),
        d1.is_prefix_of(d2),
    ensures
        imported_publics_done(d2, pubs, lo, hi),
{
    assert forall|i: int, q: int| lo <= i < hi && 0 <= q < pubs.len() implies edge_present_to(
        d2,
        #[trigger] spec_public_edge_at(pubs, i, q),
    ) by {
        lemma_edge_present_to_mono(d1, d2, spec_public_edge_at(pubs, i, q));
    }
}

/// The attach step has covered every (toolchain package, opted-in
/// package, crate) triple lexicographically before the given bounds: an
/// edge under the toolchain package's dash-normalized name leaves the
/// crate.
pub open spec fn attach_done(
    deps: Seq<DepView>,
    cargo: &CargoWorkspace,
    table: Seq<Seq<(u32, TargetKind)>>,
    rustc_workspace: &CargoWorkspace,
    rustc_libs: Seq<Option<u32>>,
    rp_bound: int,
    p_bound: int,
    c_bound: int,
) -> bool {
    forall|rp: int, p: int, c: int|
        #![trigger rustc_libs[rp], table[p][c]]
        0 <= rp < rustc_libs.len() && 0 <= p < table.len() && 0 <= c < table[p].len()
            && rustc_libs[rp] is Some && cargo.packages@[p].metadata.rustc_private && (rp < rp_bound
            || (rp == rp_bound && (p < p_bound || (p == p_bound && c < c_bound)))) ==> edge_present(
            deps,
            table[p][c].0,
            crate::crate_name::spec_normalize_dashes(rustc_workspace.packages@[rp].name@),
        )
}

/// Covered triples stay covered as edges are appended.
pub proof fn lemma_attach_done_mono(
    d1: Seq<DepView>,
    d2: Seq<DepView>,
    cargo: &CargoWorkspace,
    table: Seq<Seq<(u32, TargetKind)>>,
    rustc_workspace: &CargoWorkspace,
    rustc_libs: Seq<Option<u32>>,
    rp_bound: int,
    p_bound: int,
    c_bound: int,
)
    requires
        attach_done(d1, cargo, table, rustc_workspace, rustc_libs, rp_bound, p_bound, c_bound),
        d1.is_prefix_of(d2),
    ensures
        attach_done(d2, cargo, table, rustc_workspace, rustc_libs, rp_bound, p_bound, c_bound),
{
    assert forall|rp: int, p: int, c: int|
        #![trigger rustc_libs[rp], table[p][c]]
        0 <= rp < rustc_libs.len() && 0 <= p < table.len() && 0 <= c < table[p].len()
            && rustc_libs[rp] is Some && cargo.packages@[p].metadata.rustc_private && (rp < rp_bound
            || (rp == rp_bound && (p < p_bound || (p == p_bound && c
            < c_bound)))) implies edge_present(
        d2,
        table[p][c].0,
        crate::crate_name::spec_normalize_dashes(rustc_workspace.packages@[rp].name@),
    ) by {
        lemma_edge_present_mono(
            d1,
            d2,
            table[p][c].0,
            crate::crate_name::spec_normalize_dashes(rustc_workspace.packages@[rp].name@),
        );
    }
}

/// Attaches the private-toolchain libraries to every crate of every
/// package that opted in, under the toolchain package's dash-normalized
/// name — but never creates a second edge with a (from, name) pair that
/// already exists, so a crate never depends on both a registry copy and
/// a toolchain copy of a library under one name. Afterwards every such
/// crate has an edge under every imported library's name.
pub fn add_rustc_private_deps(
    graph: &mut CrateGraphJson,
    cargo: &CargoWorkspace,
    pkg_crates: &Vec<Vec<(u32, TargetKind)>>,
    rustc_workspace: &CargoWorkspace,
    rustc_pkg_to_lib: &Vec<Option<u32>>,
)
    requires
        cargo.wf(),
        pkg_crates@.len() == cargo.packages@.len(),
        rustc_pkg_to_lib@.len() == rustc_workspace.packages@.len(),
        crate::graph_json::graph_wf(old(graph)@),
        forall|p: int, c: int|
            0 <= p < pkg_crates@.len() && 0 <= c < pkg_crates@[p]@.len()
                ==> (#[trigger] pkg_crates@[p]@[c]).0 < old(graph)@.roots.len(),
        forall|rp: int|
            0 <= rp < rustc_pkg_to_lib@.len() ==> ((#[trigger] rustc_pkg_to_lib@[rp]) matches Some(
                id,
            ) ==> id < old(graph)@.roots.len()),
    ensures
        final(graph)@.roots == old(graph)@.roots,
        crate::graph_json::graph_wf(final(graph)@),
        old(graph)@.deps.is_prefix_of(final(graph)@.deps),
        forall|k: int, j: int|
            old(graph)@.deps.len() <= k < final(graph)@.deps.len() && 0 <= j < k ==> !((
            #[trigger] final(graph)@.deps[j]).from == (#[trigger] final(graph)@.deps[k]).from
                && final(graph)@.deps[j].name == final(graph)@.deps[k].name),
        forall|k: int|
            old(graph)@.deps.len() <= k < final(graph)@.deps.len() ==> rustc_attach_edge_ok(
                cargo,
                pkg_crates@.map_values(|v: Vec<(u32, TargetKind)>| v@),
                rustc_workspace,
                rustc_pkg_to_lib@,
                #[trigger] final(graph)@.deps[k],
            ),
        forall|rp: int, p: int, c: int|
            #![trigger rustc_pkg_to_lib@[rp], pkg_crates@[p]@[c]]
            0 <= rp < rustc_pkg_to_lib@.len() && 0 <= p < pkg_crates@.len() && 0 <= c
                < pkg_crates@[p]@.len() && rustc_pkg_to_lib@[rp] is Some
                && cargo.packages@[p].metadata.rustc_private ==> edge_present(
                final(graph)@.deps,
                pkg_crates@[p]@[c].0,
                crate::crate_name::spec_normalize_dashes(rustc_workspace.packages@[rp].name@),
            ),
{
    let ghost old_roots = graph@.roots;
    let ghost old_deps = graph@.deps;
    let ghost table = pkg_crates@.map_values(|v: Vec<(u32, TargetKind)>| v@);
    let ghost rustc_libs = rustc_pkg_to_lib@;
    let mut rp: usize = 0;
    while rp < rustc_workspace.packages.len()
        invariant
            0 <= rp <= rustc_workspace.packages@.len(),
            cargo.wf(),
            pkg_crates@.len() == cargo.packages@.len(),
            rustc_pkg_to_lib@.len() == rustc_workspace.packages@.len(),
            table == pkg_crates@.map_values(|v: Vec<(u32, TargetKind)>| v@),
            rustc_libs == rustc_pkg_to_lib@,
            old_roots == old(graph)@.roots,
            old_deps == old(graph)@.deps,
            graph@.roots == old_roots,
            crate::graph_json::graph_wf(graph@),
            old_deps.is_prefix_of(graph@.deps),
            forall|p: int, c: int|
                0 <= p < pkg_crates@.len() && 0 <= c < pkg_crates@[p]@.len()
                    ==> (#[trigger] pkg_crates@[p]@[c]).0 < old_roots.len(),
            forall|x: int|
                0 <= x < rustc_pkg_to_lib@.len() ==> ((#[trigger] rustc_pkg_to_lib@[x]) matches Some(
                    id,
                ) ==> id < old_roots.len()),
            forall|k: int, j: int|
                old_deps.len() <= k < graph@.deps.len() && 0 <= j < k ==> !((
                #[trigger] graph@.deps[j]).from == (#[trigger] graph@.deps[k]).from
                    && graph@.deps[j].name == graph@.deps[k].name),
            forall|k: int|
                old_deps.len() <= k < graph@.deps.len() ==> rustc_attach_edge_ok(
                    cargo,
                    table,
                    rustc_workspace,
                    rustc_libs,
                    #[trigger] graph@.deps[k],
                ),
            attach_done(graph@.deps, cargo, table, rustc_workspace, rustc_libs, rp as int, 0, 0),
        decreases rustc_workspace.packages@.len() - rp,
    {
        let name = normalize_dashes(rustc_workspace.packages[rp].name.as_str());
        match rustc_pkg_to_lib[rp] {
            Some(to) => {
                let mut p: usize = 0;
                while p < cargo.packages.len()
                    invariant
                        0 <= rp < rustc_workspace.packages@.len(),
                        0 <= p <= cargo.packages@.len(),
                        cargo.wf(),
                        pkg_crates@.len() == cargo.packages@.len(),
                        rustc_pkg_to_lib@.len() == rustc_workspace.packages@.len(),
                        table == pkg_crates@.map_values(|v: Vec<(u32, TargetKind)>| v@),
                        rustc_libs == rustc_pkg_to_lib@,
                        old_roots == old(graph)@.roots,
                        old_deps == old(graph)@.deps,
                        graph@.roots == old_roots,
                        crate::graph_json::graph_wf(graph@),
                        old_deps.is_prefix_of(graph@.deps),
                        rustc_libs[rp as int] == Some(to),
                        name@ == crate::crate_name::spec_normalize_dashes(
                            rustc_workspace.packages@[rp as int].name@,
                        ),
                        to < old_roots.len(),
                        forall|x: int, c: int|
                            0 <= x < pkg_crates@.len() && 0 <= c < pkg_crates@[x]@.len()
                                ==> (#[trigger] pkg_crates@[x]@[c]).0 < old_roots.len(),
                        forall|k: int, j: int|
                            old_deps.len() <= k < graph@.deps.len() && 0 <= j < k ==> !((
                            #[trigger] graph@.deps[j]).from == (#[trigger] graph@.deps[k]).from
                                && graph@.deps[j].name == graph@.deps[k].name),
                        forall|k: int|
                            old_deps.len() <= k < graph@.deps.len() ==> rustc_attach_edge_ok(
                                cargo,
                                table,
                                rustc_workspace,
                                rustc_libs,
                                #[trigger] graph@.deps[k],
                            ),
                        attach_done(
                            graph@.deps,
                            cargo,
                            table,
                            rustc_workspace,
                            rustc_libs,
                            rp as int,
                            p as int,
                            0,
                        ),
                    decreases cargo.packages@.len() - p,
                {
                    if cargo.packages[p].metadata.rustc_private {
                        let mut c: usize = 0;
                        while c < pkg_crates[p].len()
                            invariant
                                0 <= rp < rustc_workspace.packages@.len(),
                                0 <= p < cargo.packages@.len(),
                                0 <= c <= pkg_crates@[p as int]@.len(),
                                cargo.wf(),
                                cargo.packages@[p as int].metadata.rustc_private,
                                pkg_crates@.len() == cargo.packages@.len(),
                                rustc_pkg_to_lib@.len() == rustc_workspace.packages@.len(),
                                table == pkg_crates@.map_values(
                                    |v: Vec<(u32, TargetKind)>| v@,
                                ),
                                rustc_libs == rustc_pkg_to_lib@,
                                old_roots == old(graph)@.roots,
                                old_deps == old(graph)@.deps,
                                graph@.roots == old_roots,
                                crate::graph_json::graph_wf(graph@),
                                old_deps.is_prefix_of(graph@.deps),
                                rustc_libs[rp as int] == Some(to),
                                name@ == crate::crate_name::spec_normalize_dashes(
                                    rustc_workspace.packages@[rp as int].name@,
                                ),
                                to < old_roots.len(),
                                forall|x: int, y: int|
                                    0 <= x < pkg_crates@.len() && 0 <= y < pkg_crates@[x]@.len()
                                        ==> (#[trigger] pkg_crates@[x]@[y]).0 < old_roots.len(),
                                forall|k: int, j: int|
                                    old_deps.len() <= k < graph@.deps.len() && 0 <= j < k ==> !((
                                    #[trigger] graph@.deps[j]).from == (
                                    #[trigger] graph@.deps[k]).from && graph@.deps[j].name
                                        == graph@.deps[k].name),
                                forall|k: int|
                                    old_deps.len() <= k < graph@.deps.len()
                                        ==> rustc_attach_edge_ok(
                                        cargo,
                                        table,
                                        rustc_workspace,
                                        rustc_libs,
                                        #[trigger] graph@.deps[k],
                                    ),
                                attach_done(
                                    graph@.deps,
                                    cargo,
                                    table,
                                    rustc_workspace,
                                    rustc_libs,
                                    rp as int,
                                    p as int,
                                    c as int,
                                ),
                            decreases pkg_crates@[p as int]@.len() - c,
                        {
                            let from = pkg_crates[p][c].0;
                            let ghost deps_at_c = graph@.deps;
                            if !graph.contains_dep(from, name.as_str()) {
                                let ghost pre = graph@.deps;
                                let name2 = name.clone();
                                add_dep(graph, from, name2, to);
                                proof {
                                    let k = graph@.deps.len() - 1;
                                    assert(graph@.deps[k].from == from && graph@.deps[k].name
                                        == name@ && graph@.deps[k].to == to);
                                    assert forall|j: int| 0 <= j < k implies !(
                                    graph@.deps[j].from == graph@.deps[k].from
                                        && graph@.deps[j].name == graph@.deps[k].name) by {
                                        assert(graph@.deps[j] == pre[j]);
                                    }
                                    assert(table[p as int][c as int].0 == from);
                                    assert(rustc_attach_edge_ok(
                                        cargo,
                                        table,
                                        rustc_workspace,
                                        rustc_libs,
                                        graph@.deps[k],
                                    ));
                                }
                            }
                            proof {
                                assert(table[p as int][c as int].0 == from);
                                assert(deps_at_c.is_prefix_of(graph@.deps)) by {
                                    assert(deps_at_c =~= graph@.deps.subrange(
                                        0,
                                        deps_at_c.len() as int,
                                    ));
                                }
                                lemma_attach_done_mono(
                                    deps_at_c,
                                    graph@.deps,
                                    cargo,
                                    table,
                                    rustc_workspace,
                                    rustc_libs,
                                    rp as int,
                                    p as int,
                                    c as int,
                                );
                                assert(edge_present(graph@.deps, from, name@)) by {
                                    if graph@.deps.len() == deps_at_c.len() {
                                        assert(graph@.deps == deps_at_c);
                                    } else {
                                        let k = graph@.deps.len() - 1;
                                        assert(graph@.deps[k].from == from && graph@.deps[k].name
                                            == name@);
                                    }
                                }
                                assert forall|rp2: int, p2: int, c2: int|
                                    #![trigger rustc_libs[rp2], table[p2][c2]]
                                    0 <= rp2 < rustc_libs.len() && 0 <= p2 < table.len() && 0 <= c2
                                        < table[p2].len() && rustc_libs[rp2] is Some
                                        && cargo.packages@[p2].metadata.rustc_private && (rp2
                                        < rp as int || (rp2 == rp as int && (p2 < p as int || (p2
                                        == p as int && c2 < c + 1)))) implies edge_present(
                                    graph@.deps,
                                    table[p2][c2].0,
                                    crate::crate_name::spec_normalize_dashes(
                                        rustc_workspace.packages@[rp2].name@,
                                    ),
                                ) by {
                                    if rp2 == rp as int && p2 == p as int && c2 == c as int {
                                        assert(table[p2][c2].0 == from);
                                    }
                                }
                                assert(attach_done(
                                    graph@.deps,
                                    cargo,
                                    table,
                                    rustc_workspace,
                                    rustc_libs,
                                    rp as int,
                                    p as int,
                                    c + 1,
                                ));
                            }
                            c = c + 1;
                        }
                        proof {
                            assert(table[p as int].len() == pkg_crates@[p as int]@.len());
                            assert(attach_done(
                                graph@.deps,
                                cargo,
                                table,
                                rustc_workspace,
                                rustc_libs,
                                rp as int,
                                p + 1,
                                0,
                            ));
                        }
                    } else {
                        proof {
                            assert(!cargo.packages@[p as int].metadata.rustc_private);
                            assert(attach_done(
                                graph@.deps,
                                cargo,
                                table,
                                rustc_workspace,
                                rustc_libs,
                                rp as int,
                                p + 1,
                                0,
                            ));
                        }
                    }
                    p = p + 1;
                }
                proof {
                    assert(attach_done(
                        graph@.deps,
                        cargo,
                        table,
                        rustc_workspace,
                        rustc_libs,
                        rp + 1,
                        0,
                        0,
                    ));
                }
            },
            None => {
                proof {
                    assert(rustc_pkg_to_lib@[rp as int] is None);
                    assert(attach_done(
                        graph@.deps,
                        cargo,
                        table,
                        rustc_workspace,
                        rustc_libs,
                        rp + 1,
                        0,
                        0,
                    ));
                }
            },
        }
        rp = rp + 1;
    }
    proof {
        assert forall|rp: int, p: int, c: int|
            #![trigger rustc_pkg_to_lib@[rp], pkg_crates@[p]@[c]]
            0 <= rp < rustc_pkg_to_lib@.len() && 0 <= p < pkg_crates@.len() && 0 <= c
                < pkg_crates@[p]@.len() && rustc_pkg_to_lib@[rp] is Some
                && cargo.packages@[p].metadata.rustc_private implies edge_present(
            graph@.deps,
            pkg_crates@[p]@[c].0,
            crate::crate_name::spec_normalize_dashes(rustc_workspace.packages@[rp].name@),
        ) by {
            assert(table[p] == pkg_crates@[p]@);
            assert(rustc_libs[rp] == rustc_pkg_to_lib@[rp]);
        }
    }
}

} // verus!

verus! {

/// The public-dependency edges of one crate: one edge per sysroot
/// public entry, in order.
pub open spec fn spec_public_edges(from: u32, pubs: Seq<(String, u32)>) -> Seq<DepView> {
    pubs.map_values(|e: (String, u32)| DepView { from, name: e.0@, to: e.1 })
}

/// Adds one edge from a crate to every public sysroot crate.
pub fn add_public_deps(graph: &mut CrateGraphJson, from: u32, public_deps: &Vec<(String, u32)>)
    ensures
        final(graph)@.roots == old(graph)@.roots,
        final(graph)@.deps == old(graph)@.deps + spec_public_edges(from, public_deps@),
{
    let ghost old_deps = graph@.deps;
    let ghost pubs = public_deps@;
    let mut q: usize = 0;
    while q < public_deps.len()
        invariant
            0 <= q <= pubs.len(),
            pubs == public_deps@,
            old_deps == old(graph)@.deps,
            graph@.roots == old(graph)@.roots,
            graph@.deps == old_deps + spec_public_edges(from, pubs.take(q as int)),
        decreases pubs.len() - q,
    {
        let name = public_deps[q].0.clone();
        let to = public_deps[q].1;
        add_dep(graph, from, name, to);
        proof {
            assert(graph@.deps =~= old_deps + spec_public_edges(from, pubs.take(q + 1)));
        }
        q = q + 1;
    }
    proof {
        assert(pubs.take(pubs.len() as int) =~= pubs);
    }
}

/// Imports the private-toolchain workspace: finds its designated root
/// package (absence makes the import a no-op), walks its dependency
/// graph breadth-first with a visited-set — so a package shared in a
/// diamond is imported at most once — creates one node per resolvable
/// library target of each visited package with the shared base
/// configuration and the sysroot public dependencies, synthesizes the
/// inter-package edges among the imported set, and finally attaches the
/// imported libraries to every package that opted in. The nodes created
/// are exactly those of the visited packages in visit order — each
/// package at most once, so the node count is bounded by the toolchain
/// workspace's target count however many paths reach a package — and
/// every one of them receives the public sysroot edges. Without the root
/// package the import leaves the graph untouched.
pub fn handle_rustc_crates(
    rustc_workspace: &CargoWorkspace,
    load: &FileLoader,
    crate_graph_json: &mut CrateGraphJson,
    cfg_options: &CfgOptions,
    load_proc_macro: &ProcMacroLoader,
    public_deps: &Vec<(String, u32)>,
    cargo: &CargoWorkspace,
    pkg_crates: &Vec<Vec<(u32, TargetKind)>>,
) -> (r: Result<(), BuildError>)
    requires
        rustc_workspace.wf(),
        cargo.wf(),
        pkg_crates@.len() == cargo.packages@.len(),
        crate::graph_json::graph_wf(old(crate_graph_json)@),
        forall|p: int, c: int|
            0 <= p < pkg_crates@.len() && 0 <= c < pkg_crates@[p]@.len()
                ==> (#[trigger] pkg_crates@[p]@[c]).0 < old(crate_graph_json)@.roots.len(),
        forall|q: int|
            0 <= q < public_deps@.len() ==> (#[trigger] public_deps@[q]).1 < old(
                crate_graph_json,
            )@.roots.len(),
        old(crate_graph_json)@.roots.len() + total_targets_before(
            rustc_workspace.packages@,
            rustc_workspace.packages@.len() as int,
        ) < u32::MAX as nat,
    ensures
        r is Err ==> !cargo_dep_names_valid(rustc_workspace),
        cargo_dep_names_valid(rustc_workspace) ==> r is Ok,
        crate::graph_json::graph_wf(final(crate_graph_json)@),
        old(crate_graph_json)@.roots.is_prefix_of(final(crate_graph_json)@.roots),
        old(crate_graph_json)@.deps.is_prefix_of(final(crate_graph_json)@.deps),
        final(crate_graph_json)@.roots.len() <= old(crate_graph_json)@.roots.len()
            + total_targets_before(
            rustc_workspace.packages@,
            rustc_workspace.packages@.len() as int,
        ),
        first_named(rustc_workspace.packages@, "rustc_driver"@) is None ==> ({
            &&& r is Ok
            &&& final(crate_graph_json)@.roots == old(crate_graph_json)@.roots
            &&& final(crate_graph_json)@.deps == old(crate_graph_json)@.deps
        }),
        r is Ok ==> {
            &&& (forall|i: int|
                old(crate_graph_json)@.roots.len() <= i < final(crate_graph_json)@.roots.len()
                    ==> cfg_pairs_superset(
                    (#[trigger] final(crate_graph_json)@.roots[i]).potential_cfg_options,
                    final(crate_graph_json)@.roots[i].cfg_options,
                ))
            &&& (first_named(rustc_workspace.packages@, "rustc_driver"@) matches Some(rp)
                ==> root_libs_imported_upto(
                rustc_workspace,
                load,
                cfg_options@,
                rp,
                rustc_workspace.packages@[rp].targets@.len() as int,
                final(crate_graph_json)@.roots,
            ))
            &&& (exists|order: Seq<int>|
                #![trigger spec_rustc_order_nodes(rustc_workspace, load, cfg_options@, order)]
                {
                    &&& order.no_duplicates()
                    &&& (forall|o: int|
                        0 <= o < order.len() ==> 0 <= #[trigger] order[o]
                            < rustc_workspace.packages@.len())
                    &&& final(crate_graph_json)@.roots == old(crate_graph_json)@.roots
                        + spec_rustc_order_nodes(rustc_workspace, load, cfg_options@, order)
                })
            &&& ({
                let ds = final(crate_graph_json)@.deps;
                let old_dep_count = old(crate_graph_json)@.deps.len();
                let old_node_count = old(crate_graph_json)@.roots.len();
                forall|k1: int, k2: int|
                    0 <= k1 < k2 < ds.len() && old_dep_count <= k2 && (#[trigger] ds[k2]).from
                        < old_node_count ==> !((#[trigger] ds[k1]).from == ds[k2].from
                        && ds[k1].name == ds[k2].name)
            })
            &&& imported_publics_done(
                final(crate_graph_json)@.deps,
                public_deps@,
                old(crate_graph_json)@.roots.len() as int,
                final(crate_graph_json)@.roots.len() as int,
            )
        },
{
    let ghost old_roots = crate_graph_json@.roots;
    let ghost old_deps = crate_graph_json@.deps;
    let ghost pkgs = rustc_workspace.packages@;
    let n = rustc_workspace.packages.len();
    let ghost total = total_targets_before(pkgs, n as int);

    // Identity tables for the toolchain workspace, all empty at first.
    let mut visited: Vec<bool> = Vec::new();
    let mut rustc_pkg_to_lib: Vec<Option<u32>> = Vec::new();
    let mut rustc_pkg_crates: Vec<Vec<u32>> = Vec::new();
    let mut i: usize = 0;
    while i < n
        invariant
            0 <= i <= n,
            visited@.len() == i,
            rustc_pkg_to_lib@.len() == i,
            rustc_pkg_crates@.len() == i,
            forall|x: int| 0 <= x < i ==> !(#[trigger] visited@[x]),
            forall|x: int| 0 <= x < i ==> (#[trigger] rustc_pkg_to_lib@[x]) is None,
            forall|x: int| 0 <= x < i ==> (#[trigger] rustc_pkg_crates@[x])@.len() == 0,
        decreases n - i,
    {
        visited.push(false);
        rustc_pkg_to_lib.push(None);
        rustc_pkg_crates.push(Vec::new());
        i = i + 1;
    }

    // The root of the toolchain workspace; without it the import is a
    // no-op.
    let mut root_pkg: Option<usize> = None;
    let mut s: usize = 0;
    while s < n
        invariant
            0 <= s <= n,
            n == rustc_workspace.packages@.len(),
            pkgs == rustc_workspace.packages@,
            (match root_pkg {
                Some(x) => 0 <= x < s <= n && pkgs[x as int].name@ == "rustc_driver"@ && (forall|
                    j: int,
                |
                    0 <= j < x ==> (#[trigger] pkgs[j]).name@ != "rustc_driver"@),
                None => forall|j: int| 0 <= j < s ==> (#[trigger] pkgs[j]).name@ != "rustc_driver"@,
            }),
        decreases n - s,
    {
        if root_pkg.is_none() && crate::strings::str_eq(
            rustc_workspace.packages[s].name.as_str(),
            "rustc_driver",
        ) {
            root_pkg = Some(s);
        }
        s = s + 1;
    }

    match root_pkg {
        Some(root) => {
            proof {
                lemma_first_named_found(pkgs, "rustc_driver"@, root as int);
            }
            let ghost mut root_done: bool = false;
            let ghost mut root_snap: Seq<CrateRootView> = Seq::empty();
            let ghost mut order: Seq<int> = Seq::empty();
            let mut queue: Vec<usize> = Vec::new();
            queue.push(root);
            let mut head: usize = 0;
            proof {
                assert(crate_graph_json@.roots =~= old_roots + spec_rustc_order_nodes(
                    rustc_workspace,
                    load,
                    cfg_options@,
                    order,
                ));
            }
            while head < queue.len()
                invariant
                    n == rustc_workspace.packages@.len(),
                    pkgs == rustc_workspace.packages@,
                    rustc_workspace.wf(),
                    visited@.len() == n,
                    rustc_pkg_to_lib@.len() == n,
                    rustc_pkg_crates@.len() == n,
                    0 <= head <= queue@.len(),
                    forall|q: int| 0 <= q < queue@.len() ==> (#[trigger] queue@[q]) < n,
                    root < n,
                    queue@.len() > 0 && queue@[0] == root,
                    head == 0 ==> !root_done && !visited@[root as int],
                    head > 0 ==> root_done,
                    root_done ==> root_snap.is_prefix_of(crate_graph_json@.roots)
                        && root_libs_imported_upto(
                        rustc_workspace,
                        load,
                        cfg_options@,
                        root as int,
                        pkgs[root as int].targets@.len() as int,
                        root_snap,
                    ),
                    order.no_duplicates(),
                    forall|o: int| 0 <= o < order.len() ==> 0 <= #[trigger] order[o] < n,
                    forall|x: int| 0 <= x < n ==> ((#[trigger] visited@[x]) <==> order.contains(x)),
                    crate_graph_json@.roots == old_roots + spec_rustc_order_nodes(
                        rustc_workspace,
                        load,
                        cfg_options@,
                        order,
                    ),
                    old_roots == old(crate_graph_json)@.roots,
                    old_deps == old(crate_graph_json)@.deps,
                    total == total_targets_before(pkgs, n as int),
                    old_roots.len() + total < u32::MAX as nat,
                    crate::graph_json::graph_wf(crate_graph_json@),
                    old_roots.is_prefix_of(crate_graph_json@.roots),
                    old_deps.is_prefix_of(crate_graph_json@.deps),
                    crate_graph_json@.roots.len() <= old_roots.len() + visited_targets(
                        pkgs,
                        visited@,
                        n as int,
                    ),
                    forall|q: int|
                        0 <= q < public_deps@.len() ==> (#[trigger] public_deps@[q]).1
                            < old_roots.len(),
                    forall|x: int|
                        0 <= x < n ==> ((#[trigger] rustc_pkg_to_lib@[x]) matches Some(id)
                            ==> id < crate_graph_json@.roots.len()),
                    forall|x: int, y: int|
                        0 <= x < n && 0 <= y < rustc_pkg_crates@[x]@.len()
                            ==> (#[trigger] rustc_pkg_crates@[x]@[y]) < crate_graph_json@.roots.len(),
                    forall|x: int, y: int|
                        0 <= x < n && 0 <= y < rustc_pkg_crates@[x]@.len()
                            ==> (#[trigger] rustc_pkg_crates@[x]@[y]) >= old_roots.len(),
                    forall|k: int|
                        old_deps.len() <= k < crate_graph_json@.deps.len()
                            ==> (#[trigger] crate_graph_json@.deps[k]).from >= old_roots.len(),
                    imported_publics_done(
                        crate_graph_json@.deps,
                        public_deps@,
                        old_roots.len() as int,
                        crate_graph_json@.roots.len() as int,
                    ),
                    forall|i2: int|
                        old_roots.len() <= i2 < crate_graph_json@.roots.len()
                            ==> cfg_pairs_superset(
                            (#[trigger] crate_graph_json@.roots[i2]).potential_cfg_options,
                            crate_graph_json@.roots[i2].cfg_options,
                        ),
                decreases count_unvisited(visited@, n as int), queue@.len() - head,
            {
                let pkg = queue[head];
                proof {
                    if !root_done {
                        assert(pkg == root);
                    }
                }
                head = head + 1;
                if !visited[pkg] {
                    let ghost pre_visited = visited@;
                    let ghost pre_order = order;
                    proof {
                        assert(!pre_order.contains(pkg as int));
                    }
                    visited.set(pkg, true);
                    proof {
                        lemma_count_unvisited_update(pre_visited, pkg as int, n as int);
                        lemma_visited_targets_update(pkgs, pre_visited, pkg as int, n as int);
                        lemma_visited_le_total(pkgs, visited@, n as int);
                    }

                    // Enqueue every dependency target for later visits.
                    let mut d: usize = 0;
                    while d < rustc_workspace.packages[pkg].dependencies.len()
                        invariant
                            0 <= pkg < n,
                            n == rustc_workspace.packages@.len(),
                            rustc_workspace.wf(),
                            0 <= d <= rustc_workspace.packages@[pkg as int].dependencies@.len(),
                            head <= queue@.len(),
                            forall|q: int| 0 <= q < queue@.len() ==> (#[trigger] queue@[q]) < n,
                            queue@.len() > 0 && queue@[0] == root,
                        decreases rustc_workspace.packages@[pkg as int].dependencies@.len() - d,
                    {
                        let dep_pkg = rustc_workspace.packages[pkg].dependencies[d].pkg;
                        queue.push(dep_pkg);
                        d = d + 1;
                    }

                    // One node per resolvable library target, with the
                    // sysroot public dependencies attached.
                    let ghost pre_len = crate_graph_json@.roots.len();
                    let mut pkg_crate_ids: Vec<u32> = Vec::new();
                    let mut t: usize = 0;
                    while t < rustc_workspace.packages[pkg].targets.len()
                        invariant
                            0 <= pkg < n,
                            n == rustc_workspace.packages@.len(),
                            pkgs == rustc_workspace.packages@,
                            rustc_workspace.wf(),
                            0 <= t <= pkgs[pkg as int].targets@.len(),
                            old_roots == old(crate_graph_json)@.roots,
                            old_deps == old(crate_graph_json)@.deps,
                            total == total_targets_before(pkgs, n as int),
                            old_roots.len() + total < u32::MAX as nat,
                            pre_len + (pkgs[pkg as int].targets@.len() - t)
                                <= old_roots.len() + visited_targets(pkgs, visited@, n as int),
                            crate_graph_json@.roots.len() + (pkgs[pkg as int].targets@.len() - t)
                                <= old_roots.len() + visited_targets(pkgs, visited@, n as int),
                            visited_targets(pkgs, visited@, n as int) <= total,
                            crate::graph_json::graph_wf(crate_graph_json@),
                            old_roots.is_prefix_of(crate_graph_json@.roots),
                            old_deps.is_prefix_of(crate_graph_json@.deps),
                            visited@.len() == n,
                            rustc_pkg_to_lib@.len() == n,
                            rustc_pkg_crates@.len() == n,
                            forall|q: int|
                                0 <= q < public_deps@.len() ==> (#[trigger] public_deps@[q]).1
                                    < old_roots.len(),
                            forall|x: int|
                                0 <= x < n ==> ((#[trigger] rustc_pkg_to_lib@[x]) matches Some(id)
                                    ==> id < crate_graph_json@.roots.len()),
                            forall|x: int, y: int|
                                0 <= x < n && 0 <= y < rustc_pkg_crates@[x]@.len()
                                    ==> (#[trigger] rustc_pkg_crates@[x]@[y])
                                    < crate_graph_json@.roots.len(),
                            forall|y: int|
                                0 <= y < pkg_crate_ids@.len() ==> (#[trigger] pkg_crate_ids@[y])
                                    < crate_graph_json@.roots.len(),
                            forall|i2: int|
                                old_roots.len() <= i2 < crate_graph_json@.roots.len()
                                    ==> cfg_pairs_superset(
                                    (#[trigger] crate_graph_json@.roots[i2]).potential_cfg_options,
                                    crate_graph_json@.roots[i2].cfg_options,
                                ),
                            root < n,
                            root_done ==> root_snap.is_prefix_of(crate_graph_json@.roots)
                                && root_libs_imported_upto(
                                rustc_workspace,
                                load,
                                cfg_options@,
                                root as int,
                                pkgs[root as int].targets@.len() as int,
                                root_snap,
                            ),
                            (!root_done ==> pkg == root && root_libs_imported_upto(
                                rustc_workspace,
                                load,
                                cfg_options@,
                                root as int,
                                t as int,
                                crate_graph_json@.roots,
                            )),
                            crate_graph_json@.roots == old_roots + spec_rustc_order_nodes(
                                rustc_workspace,
                                load,
                                cfg_options@,
                                order,
                            ) + spec_rustc_pkg_nodes(
                                rustc_workspace,
                                load,
                                cfg_options@,
                                pkg as int,
                                t as int,
                            ),
                            forall|k: int|
                                old_deps.len() <= k < crate_graph_json@.deps.len()
                                    ==> (#[trigger] crate_graph_json@.deps[k]).from
                                    >= old_roots.len(),
                            forall|x: int, y: int|
                                0 <= x < n && 0 <= y < rustc_pkg_crates@[x]@.len()
                                    ==> (#[trigger] rustc_pkg_crates@[x]@[y]) >= old_roots.len(),
                            forall|y: int|
                                0 <= y < pkg_crate_ids@.len() ==> (#[trigger] pkg_crate_ids@[y])
                                    >= old_roots.len(),
                            imported_publics_done(
                                crate_graph_json@.deps,
                                public_deps@,
                                old_roots.len() as int,
                                crate_graph_json@.roots.len() as int,
                            ),
                        decreases pkgs[pkg as int].targets@.len() - t,
                    {
                        let tgt = rustc_workspace.packages[pkg].targets[t];
                        let is_lib = rustc_workspace.targets[tgt].kind == TargetKind::Lib;
                        if is_lib {
                            match load.load(rustc_workspace.targets[tgt].root.as_str()) {
                                Some(file_id) => {
                                    let ghost roots_before = crate_graph_json@.roots;
                                    let crate_id = add_target_crate_root(
                                        crate_graph_json,
                                        &rustc_workspace.packages[pkg],
                                        None,
                                        cfg_options,
                                        load_proc_macro,
                                        file_id,
                                        rustc_workspace.targets[tgt].name.as_str(),
                                    );
                                    proof {
                                        assert(crate_graph_json@.roots == roots_before.push(
                                            crate_graph_json@.roots.last(),
                                        ));
                                        assert(old_roots.is_prefix_of(crate_graph_json@.roots))
                                            by {
                                            assert(old_roots =~= crate_graph_json@.roots.subrange(
                                                0,
                                                old_roots.len() as int,
                                            ));
                                        }
                                    }
                                    proof {
                                        assert(crate_id >= old_roots.len());
                                        assert(crate_graph_json@.roots =~= old_roots
                                            + spec_rustc_order_nodes(
                                            rustc_workspace,
                                            load,
                                            cfg_options@,
                                            order,
                                        ) + spec_rustc_pkg_nodes(
                                            rustc_workspace,
                                            load,
                                            cfg_options@,
                                            pkg as int,
                                            t + 1,
                                        ));
                                    }
                                    rustc_pkg_to_lib.set(pkg, Some(crate_id));
                                    let ghost deps_pre_pub = crate_graph_json@.deps;
                                    add_public_deps(crate_graph_json, crate_id, public_deps);
                                    proof {
                                        assert forall|k: int|
                                            old_deps.len() <= k < crate_graph_json@.deps.len() implies (
                                        #[trigger] crate_graph_json@.deps[k]).from
                                            >= old_roots.len() by {
                                            if k < deps_pre_pub.len() {
                                                assert(crate_graph_json@.deps[k]
                                                    == deps_pre_pub[k]);
                                            } else {
                                                assert(crate_graph_json@.deps[k]
                                                    == spec_public_edges(crate_id, public_deps@)[
                                                    k - deps_pre_pub.len()]);
                                                assert(crate_graph_json@.deps[k].from == crate_id);
                                            }
                                        }
                                        assert(deps_pre_pub.is_prefix_of(
                                            crate_graph_json@.deps,
                                        )) by {
                                            assert(deps_pre_pub
                                                =~= crate_graph_json@.deps.subrange(
                                                0,
                                                deps_pre_pub.len() as int,
                                            ));
                                        }
                                        lemma_imported_publics_mono(
                                            deps_pre_pub,
                                            crate_graph_json@.deps,
                                            public_deps@,
                                            old_roots.len() as int,
                                            crate_id as int,
                                        );
                                        assert forall|i: int, q: int|
                                            old_roots.len() <= i < crate_graph_json@.roots.len()
                                                && 0 <= q
                                                < public_deps@.len() implies edge_present_to(
                                            crate_graph_json@.deps,
                                            #[trigger] spec_public_edge_at(public_deps@, i, q),
                                        ) by {
                                            if i == crate_id as int {
                                                let k = deps_pre_pub.len() + q;
                                                assert(crate_graph_json@.deps[k as int]
                                                    == spec_public_edges(crate_id, public_deps@)[
                                                    q]);
                                                assert(crate_graph_json@.deps[k as int]
                                                    == spec_public_edge_at(public_deps@, i, q));
                                            }
                                        }
                                        assert(old_deps.is_prefix_of(crate_graph_json@.deps)) by {
                                            assert(old_deps =~= crate_graph_json@.deps.subrange(
                                                0,
                                                old_deps.len() as int,
                                            ));
                                        }
                                        assert(roots_before.is_prefix_of(
                                            crate_graph_json@.roots,
                                        )) by {
                                            assert(roots_before
                                                =~= crate_graph_json@.roots.subrange(
                                                0,
                                                roots_before.len() as int,
                                            ));
                                        }
                                        if root_done {
                                            assert(root_snap.is_prefix_of(
                                                crate_graph_json@.roots,
                                            )) by {
                                                assert(root_snap
                                                    =~= crate_graph_json@.roots.subrange(
                                                    0,
                                                    root_snap.len() as int,
                                                ));
                                            }
                                        } else {
                                            lemma_root_nodes_stable(
                                                rustc_workspace,
                                                load,
                                                cfg_options@,
                                                root as int,
                                                t as int,
                                                roots_before,
                                                crate_graph_json@.roots,
                                            );
                                            assert(crate_graph_json@.roots[
                                                roots_before.len() as int
                                            ] == spec_target_root(
                                                cfg_options@,
                                                pkgs[pkg as int],
                                                None,
                                                file_id,
                                                rustc_workspace.targets@[tgt as int].name@,
                                            ));
                                            assert(root_lib_node_at(
                                                rustc_workspace,
                                                load,
                                                cfg_options@,
                                                root as int,
                                                t as int,
                                                crate_graph_json@.roots,
                                            ));
                                        }
                                    }
                                    pkg_crate_ids.push(crate_id);
                                },
                                None => {
                                    proof {
                                        assert(crate_graph_json@.roots =~= old_roots
                                            + spec_rustc_order_nodes(
                                            rustc_workspace,
                                            load,
                                            cfg_options@,
                                            order,
                                        ) + spec_rustc_pkg_nodes(
                                            rustc_workspace,
                                            load,
                                            cfg_options@,
                                            pkg as int,
                                            t + 1,
                                        ));
                                    }
                                },
                            }
                        } else {
                            proof {
                                assert(crate_graph_json@.roots =~= old_roots
                                    + spec_rustc_order_nodes(
                                    rustc_workspace,
                                    load,
                                    cfg_options@,
                                    order,
                                ) + spec_rustc_pkg_nodes(
                                    rustc_workspace,
                                    load,
                                    cfg_options@,
                                    pkg as int,
                                    t + 1,
                                ));
                            }
                        }
                        t = t + 1;
                    }
                    rustc_pkg_crates.set(pkg, pkg_crate_ids);
                    proof {
                        if !root_done {
                            root_snap = crate_graph_json@.roots;
                            root_done = true;
                            assert(root_snap.is_prefix_of(crate_graph_json@.roots)) by {
                                assert(root_snap =~= crate_graph_json@.roots.subrange(
                                    0,
                                    root_snap.len() as int,
                                ));
                            }
                        }
                        order = order.push(pkg as int);
                        assert(order.drop_last() =~= pre_order);
                        assert(order.last() == pkg as int);
                        assert(crate_graph_json@.roots =~= old_roots + spec_rustc_order_nodes(
                            rustc_workspace,
                            load,
                            cfg_options@,
                            order,
                        ));
                        assert forall|i: int, j: int|
                            0 <= i < order.len() && 0 <= j < order.len() && i != j implies order[i]
                            != order[j] by {
                            if i == order.len() - 1 {
                                assert(pre_order[j] == order[j]);
                            }
                            if j == order.len() - 1 {
                                assert(pre_order[i] == order[i]);
                            }
                        }
                        assert(order.no_duplicates());
                        assert forall|x: int|
                            0 <= x < n implies ((#[trigger] visited@[x]) <==> order.contains(
                            x,
                        )) by {
                            if x == pkg as int {
                                assert(order[order.len() - 1] == x);
                                assert(order.contains(x));
                            } else {
                                assert(visited@[x] == pre_visited[x]);
                                if order.contains(x) {
                                    let idx = choose|idx: int|
                                        0 <= idx < order.len() && order[idx] == x;
                                    assert(idx < order.len() - 1);
                                    assert(pre_order[idx] == x);
                                    assert(pre_order.contains(x));
                                }
                                if pre_order.contains(x) {
                                    let idx = choose|idx: int|
                                        0 <= idx < pre_order.len() && pre_order[idx] == x;
                                    assert(order[idx] == x);
                                    assert(order.contains(x));
                                }
                            }
                        }
                    }
                }
            }

            // Inter-package edges among the imported set.
            proof {
                lemma_visited_le_total(pkgs, visited@, n as int);
                assert(root_done);
            }
            let ghost roots_bfs = crate_graph_json@.roots;
            let mut p2: usize = 0;
            while p2 < n
                invariant
                    0 <= p2 <= n,
                    n == rustc_workspace.packages@.len(),
                    pkgs == rustc_workspace.packages@,
                    total == total_targets_before(pkgs, n as int),
                    first_named(pkgs, "rustc_driver"@) == Some(root as int),
                    root < n,
                    rustc_workspace.wf(),
                    rustc_pkg_to_lib@.len() == n,
                    rustc_pkg_crates@.len() == n,
                    old_roots == old(crate_graph_json)@.roots,
                    old_deps == old(crate_graph_json)@.deps,
                    crate::graph_json::graph_wf(crate_graph_json@),
                    old_roots.is_prefix_of(crate_graph_json@.roots),
                    old_deps.is_prefix_of(crate_graph_json@.deps),
                    crate_graph_json@.roots == roots_bfs,
                    crate_graph_json@.roots.len() <= old_roots.len() + total,
                    forall|x: int|
                        0 <= x < n ==> ((#[trigger] rustc_pkg_to_lib@[x]) matches Some(id)
                            ==> id < crate_graph_json@.roots.len()),
                    forall|x: int, y: int|
                        0 <= x < n && 0 <= y < rustc_pkg_crates@[x]@.len()
                            ==> (#[trigger] rustc_pkg_crates@[x]@[y]) < crate_graph_json@.roots.len(),
                    forall|x: int, y: int|
                        0 <= x < n && 0 <= y < rustc_pkg_crates@[x]@.len()
                            ==> (#[trigger] rustc_pkg_crates@[x]@[y]) >= old_roots.len(),
                    forall|k: int|
                        old_deps.len() <= k < crate_graph_json@.deps.len()
                            ==> (#[trigger] crate_graph_json@.deps[k]).from >= old_roots.len(),
                    imported_publics_done(
                        crate_graph_json@.deps,
                        public_deps@,
                        old_roots.len() as int,
                        crate_graph_json@.roots.len() as int,
                    ),
                    forall|i2: int|
                        old_roots.len() <= i2 < crate_graph_json@.roots.len()
                            ==> cfg_pairs_superset(
                            (#[trigger] crate_graph_json@.roots[i2]).potential_cfg_options,
                            crate_graph_json@.roots[i2].cfg_options,
                        ),
                decreases n - p2,
            {
                if !rustc_pkg_crates[p2].is_empty() {
                    let mut d2: usize = 0;
                    while d2 < rustc_workspace.packages[p2].dependencies.len()
                        invariant
                            0 <= p2 < n,
                            0 <= d2 <= rustc_workspace.packages@[p2 as int].dependencies@.len(),
                            n == rustc_workspace.packages@.len(),
                            pkgs == rustc_workspace.packages@,
                            total == total_targets_before(pkgs, n as int),
                            first_named(pkgs, "rustc_driver"@) == Some(root as int),
                            root < n,
                            rustc_workspace.wf(),
                            rustc_pkg_to_lib@.len() == n,
                            rustc_pkg_crates@.len() == n,
                            old_roots == old(crate_graph_json)@.roots,
                            old_deps == old(crate_graph_json)@.deps,
                            crate::graph_json::graph_wf(crate_graph_json@),
                            old_roots.is_prefix_of(crate_graph_json@.roots),
                            old_deps.is_prefix_of(crate_graph_json@.deps),
                            crate_graph_json@.roots == roots_bfs,
                            crate_graph_json@.roots.len() <= old_roots.len() + total,
                            forall|x: int|
                                0 <= x < n ==> ((#[trigger] rustc_pkg_to_lib@[x]) matches Some(id)
                                    ==> id < crate_graph_json@.roots.len()),
                            forall|x: int, y: int|
                                0 <= x < n && 0 <= y < rustc_pkg_crates@[x]@.len()
                                    ==> (#[trigger] rustc_pkg_crates@[x]@[y])
                                    < crate_graph_json@.roots.len(),
                            forall|x: int, y: int|
                                0 <= x < n && 0 <= y < rustc_pkg_crates@[x]@.len()
                                    ==> (#[trigger] rustc_pkg_crates@[x]@[y]) >= old_roots.len(),
                            forall|k: int|
                                old_deps.len() <= k < crate_graph_json@.deps.len()
                                    ==> (#[trigger] crate_graph_json@.deps[k]).from
                                    >= old_roots.len(),
                            imported_publics_done(
                                crate_graph_json@.deps,
                                public_deps@,
                                old_roots.len() as int,
                                crate_graph_json@.roots.len() as int,
                            ),
                            forall|i2: int|
                                old_roots.len() <= i2 < crate_graph_json@.roots.len()
                                    ==> cfg_pairs_superset(
                                    (#[trigger] crate_graph_json@.roots[i2]).potential_cfg_options,
                                    crate_graph_json@.roots[i2].cfg_options,
                                ),
                        decreases rustc_workspace.packages@[p2 as int].dependencies@.len() - d2,
                    {
                        let dep_name = &rustc_workspace.packages[p2].dependencies[d2].name;
                        if !crate_name_ok(dep_name.as_str()) {
                            proof {
                                assert(!is_valid_crate_name(
                                    rustc_workspace.packages@[p2 as int].dependencies@[
                                        d2 as int
                                    ].name@,
                                ));
                                assert(!cargo_dep_names_valid(rustc_workspace));
                            }
                            return Err(BuildError::InvalidCrateName(dep_name.clone()));
                        }
                        let dep_pkg = rustc_workspace.packages[p2].dependencies[d2].pkg;
                        match rustc_pkg_to_lib[dep_pkg] {
                            Some(to) => {
                                let mut f: usize = 0;
                                while f < rustc_pkg_crates[p2].len()
                                    invariant
                                        0 <= p2 < n,
                                        0 <= f <= rustc_pkg_crates@[p2 as int]@.len(),
                                        n == rustc_workspace.packages@.len(),
                                        rustc_pkg_to_lib@.len() == n,
                                        rustc_pkg_crates@.len() == n,
                                        to < crate_graph_json@.roots.len(),
                                        old_roots == old(crate_graph_json)@.roots,
                                        old_deps == old(crate_graph_json)@.deps,
                                        crate::graph_json::graph_wf(crate_graph_json@),
                                        old_roots.is_prefix_of(crate_graph_json@.roots),
                                        old_deps.is_prefix_of(crate_graph_json@.deps),
                                        crate_graph_json@.roots == roots_bfs,
                                        crate_graph_json@.roots.len() <= old_roots.len() + total,
                                        forall|x: int|
                                            0 <= x < n ==> ((
                                            #[trigger] rustc_pkg_to_lib@[x]) matches Some(id)
                                                ==> id < crate_graph_json@.roots.len()),
                                        forall|x: int, y: int|
                                            0 <= x < n && 0 <= y < rustc_pkg_crates@[x]@.len()
                                                ==> (#[trigger] rustc_pkg_crates@[x]@[y])
                                                < crate_graph_json@.roots.len(),
                                        forall|x: int, y: int|
                                            0 <= x < n && 0 <= y < rustc_pkg_crates@[x]@.len()
                                                ==> (#[trigger] rustc_pkg_crates@[x]@[y])
                                                >= old_roots.len(),
                                        forall|k: int|
                                            old_deps.len() <= k < crate_graph_json@.deps.len()
                                                ==> (#[trigger] crate_graph_json@.deps[k]).from
                                                >= old_roots.len(),
                                        imported_publics_done(
                                            crate_graph_json@.deps,
                                            public_deps@,
                                            old_roots.len() as int,
                                            crate_graph_json@.roots.len() as int,
                                        ),
                                        forall|i2: int|
                                            old_roots.len() <= i2 < crate_graph_json@.roots.len()
                                                ==> cfg_pairs_superset(
                                                (
                                                #[trigger] crate_graph_json@.roots[i2]).potential_cfg_options,
                                                crate_graph_json@.roots[i2].cfg_options,
                                            ),
                                    decreases rustc_pkg_crates@[p2 as int]@.len() - f,
                                {
                                    let from = rustc_pkg_crates[p2][f];
                                    let name = dep_name.clone();
                                    let ghost pre = crate_graph_json@.deps;
                                    add_dep(crate_graph_json, from, name, to);
                                    proof {
                                        assert(pre.is_prefix_of(crate_graph_json@.deps)) by {
                                            assert(pre =~= crate_graph_json@.deps.subrange(
                                                0,
                                                pre.len() as int,
                                            ));
                                        }
                                        lemma_imported_publics_mono(
                                            pre,
                                            crate_graph_json@.deps,
                                            public_deps@,
                                            old_roots.len() as int,
                                            crate_graph_json@.roots.len() as int,
                                        );
                                    }
                                    f = f + 1;
                                }
                            },
                            None => {},
                        }
                        d2 = d2 + 1;
                    }
                }
                p2 = p2 + 1;
            }

            // Attach the imported libraries to every opted-in package.
            proof {
                assert(forall|p: int, c: int|
                    0 <= p < pkg_crates@.len() && 0 <= c < pkg_crates@[p]@.len()
                        ==> (#[trigger] pkg_crates@[p]@[c]).0 < crate_graph_json@.roots.len());
            }
            let ghost pre_attach = crate_graph_json@.deps;
            add_rustc_private_deps(
                crate_graph_json,
                cargo,
                pkg_crates,
                rustc_workspace,
                &rustc_pkg_to_lib,
            );
            proof {
                assert(old_deps.is_prefix_of(final(crate_graph_json)@.deps)) by {
                    assert(old_deps =~= final(crate_graph_json)@.deps.subrange(
                        0,
                        old_deps.len() as int,
                    ));
                }
                lemma_root_nodes_stable(
                    rustc_workspace,
                    load,
                    cfg_options@,
                    root as int,
                    pkgs[root as int].targets@.len() as int,
                    root_snap,
                    crate_graph_json@.roots,
                );
                // New edges leaving a pre-existing crate come only from
                // the attach step, which never duplicates a (from, name)
                // pair.
                assert forall|k1: int, k2: int|
                    0 <= k1 < k2 < crate_graph_json@.deps.len() && old_deps.len() <= k2 && (
                #[trigger] crate_graph_json@.deps[k2]).from < old_roots.len() implies !((
                #[trigger] crate_graph_json@.deps[k1]).from == crate_graph_json@.deps[k2].from
                    && crate_graph_json@.deps[k1].name == crate_graph_json@.deps[k2].name) by {
                    if k2 < pre_attach.len() {
                        assert(crate_graph_json@.deps[k2] == pre_attach[k2]);
                        assert(pre_attach[k2].from >= old_roots.len());
                    }
                }
                // The node list is exactly the visit order's nodes.
                assert(crate_graph_json@.roots == old_roots + spec_rustc_order_nodes(
                    rustc_workspace,
                    load,
                    cfg_options@,
                    order,
                ));
                assert(pre_attach.is_prefix_of(crate_graph_json@.deps)) by {
                    assert(pre_attach =~= crate_graph_json@.deps.subrange(
                        0,
                        pre_attach.len() as int,
                    ));
                }
                lemma_imported_publics_mono(
                    pre_attach,
                    crate_graph_json@.deps,
                    public_deps@,
                    old_roots.len() as int,
                    crate_graph_json@.roots.len() as int,
                );
            }
            Ok(())
        },
        None => {
            proof {
                lemma_first_named_missing(pkgs, "rustc_driver"@);
                assert(spec_rustc_order_nodes(
                    rustc_workspace,
                    load,
                    cfg_options@,
                    Seq::<int>::empty(),
                ) =~= Seq::<CrateRootView>::empty());
                assert(crate_graph_json@.roots =~= old_roots + spec_rustc_order_nodes(
                    rustc_workspace,
                    load,
                    cfg_options@,
                    Seq::<int>::empty(),
                ));
                assert(Seq::<int>::empty().no_duplicates());
                assert(old_roots.is_prefix_of(crate_graph_json@.roots)) by {
                    assert(old_roots =~= crate_graph_json@.roots.subrange(
                        0,
                        old_roots.len() as int,
                    ));
                }
                assert(old_deps.is_prefix_of(crate_graph_json@.deps)) by {
                    assert(old_deps =~= crate_graph_json@.deps.subrange(
                        0,
                        old_deps.len() as int,
                    ));
                }
                assert(imported_publics_done(
                    crate_graph_json@.deps,
                    public_deps@,
                    old_roots.len() as int,
                    crate_graph_json@.roots.len() as int,
                ));
            }
            Ok(())
        },
    }
}

} // verus!

verus! {

/// Resolved counts grow with the prefix.
pub proof fn lemma_resolved_before_mono(sys: &Sysroot, load: &FileLoader, a: int, b: int)
    requires
        0 <= a <= b,
    ensures
        resolved_before(sys, load, a) <= resolved_before(sys, load, b),
    decreases b,
{
    if a < b {
        lemma_resolved_before_mono(sys, load, a, b - 1);
    }
}

/// One sysroot node per resolvable sysroot crate.
pub proof fn lemma_sysroot_roots_len(
    sys: &Sysroot,
    load: &FileLoader,
    cfgp: Seq<(Seq<char>, Seq<Seq<char>>)>,
    upto: int,
)
    ensures
        spec_sysroot_roots(sys, load, cfgp, upto).len() == resolved_before(sys, load, upto),
    decreases upto,
{
    if upto > 0 {
        lemma_sysroot_roots_len(sys, load, cfgp, upto - 1);
    }
}

/// Every sysroot node carries the fixed base configuration, as both its
/// active and its potential set.
pub proof fn lemma_sysroot_roots_uniform(
    sys: &Sysroot,
    load: &FileLoader,
    cfgp: Seq<(Seq<char>, Seq<Seq<char>>)>,
    upto: int,
)
    ensures
        forall|i: int|
            0 <= i < spec_sysroot_roots(sys, load, cfgp, upto).len() ==> (#[trigger] spec_sysroot_roots(
                sys,
                load,
                cfgp,
                upto,
            )[i]).cfg_options == cfgp && spec_sysroot_roots(sys, load, cfgp, upto)[
                i
            ].potential_cfg_options == cfgp,
    decreases upto,
{
    if upto > 0 {
        lemma_sysroot_roots_uniform(sys, load, cfgp, upto - 1);
    }
}

/// Every serialized configuration projection covers itself.
pub proof fn lemma_pairs_superset_refl(s: Seq<(Seq<char>, Seq<Seq<char>>)>)
    ensures
        cfg_pairs_superset(s, s),
{
    assert forall|i: int| 0 <= i < s.len() implies crate::cfg_data::pair_covered(
        s,
        #[trigger] s[i],
    ) by {
        assert(0 <= i < s.len() && s[i].0 == s[i].0 && (forall|v: Seq<char>|
            #[trigger] s[i].1.contains(v) ==> s[i].1.contains(v)));
    }
}

/// The shared base configuration of workspace crates: the platform flags
/// plus the fixed `test` and `debug_assertions` atoms.
pub open spec fn spec_shared_base(rustc_cfg: Seq<CfgFlag>) -> Seq<CfgFlagView> {
    crate::cfg_data::spec_insert(
        crate::cfg_data::spec_insert(
            spec_insert_all(Seq::empty(), flag_views(rustc_cfg)),
            CfgFlagView::Atom("test"@),
        ),
        CfgFlagView::Atom("debug_assertions"@),
    )
}

/// A package's effective base configuration: the shared base, with the
/// package's override applied to a copy — packages without an override
/// keep the shared base untouched.
pub open spec fn spec_pkg_base_cfg(
    base: Seq<CfgFlagView>,
    ov: &crate::cfg_data::CfgOverrides,
    name: Seq<char>,
) -> Seq<CfgFlagView> {
    match ov.spec_get(name) {
        Some(diff) => crate::cfg_data::spec_remove_all(spec_insert_all(base, diff.0), diff.1),
        None => base,
    }
}

/// The nodes the first `upto` targets of one package produce, in order.
pub open spec fn spec_package_roots(
    cargo: &CargoWorkspace,
    load: &FileLoader,
    bs: &crate::workspace::WorkspaceBuildScripts,
    base: Seq<CfgFlagView>,
    ov: &crate::cfg_data::CfgOverrides,
    p: int,
    upto: int,
) -> Seq<CrateRootView>
    decreases upto,
{
    if upto <= 0 {
        Seq::empty()
    } else {
        let prefix = spec_package_roots(cargo, load, bs, base, ov, p, upto - 1);
        let pkg = cargo.packages@[p];
        let t = pkg.targets@[upto - 1] as int;
        match load.spec_load(cargo.targets@[t].root@) {
            Some(fid) => prefix.push(
                spec_target_root(
                    spec_pkg_base_cfg(base, ov, pkg.name@),
                    pkg,
                    bs.spec_get(p),
                    fid,
                    cargo.targets@[t].name@,
                ),
            ),
            None => prefix,
        }
    }
}

/// The nodes of the first `upto` packages, in workspace order.
pub open spec fn spec_all_package_roots(
    cargo: &CargoWorkspace,
    load: &FileLoader,
    bs: &crate::workspace::WorkspaceBuildScripts,
    base: Seq<CfgFlagView>,
    ov: &crate::cfg_data::CfgOverrides,
    upto: int,
) -> Seq<CrateRootView>
    decreases upto,
{
    if upto <= 0 {
        Seq::empty()
    } else {
        spec_all_package_roots(cargo, load, bs, base, ov, upto - 1) + spec_package_roots(
            cargo,
            load,
            bs,
            base,
            ov,
            upto - 1,
            cargo.packages@[upto - 1].targets@.len() as int,
        )
    }
}

/// A package contributes at most one node per target.
pub proof fn lemma_package_roots_len_le(
    cargo: &CargoWorkspace,
    load: &FileLoader,
    bs: &crate::workspace::WorkspaceBuildScripts,
    base: Seq<CfgFlagView>,
    ov: &crate::cfg_data::CfgOverrides,
    p: int,
    upto: int,
)
    requires
        upto >= 0,
    ensures
        spec_package_roots(cargo, load, bs, base, ov, p, upto).len() <= upto,
    decreases upto,
{
    if upto > 0 {
        lemma_package_roots_len_le(cargo, load, bs, base, ov, p, upto - 1);
    }
}

/// The workspace contributes at most one node per target overall.
pub proof fn lemma_all_package_roots_len_le(
    cargo: &CargoWorkspace,
    load: &FileLoader,
    bs: &crate::workspace::WorkspaceBuildScripts,
    base: Seq<CfgFlagView>,
    ov: &crate::cfg_data::CfgOverrides,
    upto: int,
)
    requires
        upto >= 0,
    ensures
        spec_all_package_roots(cargo, load, bs, base, ov, upto).len() <= total_targets_before(
            cargo.packages@,
            upto,
        ),
    decreases upto,
{
    if upto > 0 {
        lemma_all_package_roots_len_le(cargo, load, bs, base, ov, upto - 1);
        lemma_package_roots_len_le(
            cargo,
            load,
            bs,
            base,
            ov,
            upto - 1,
            cargo.packages@[upto - 1].targets@.len() as int,
        );
    }
}

/// Target totals grow with the prefix.
pub proof fn lemma_total_targets_mono(pkgs: Seq<PackageData>, a: int, b: int)
    requires
        0 <= a <= b,
    ensures
        total_targets_before(pkgs, a) <= total_targets_before(pkgs, b),
    decreases b,
{
    if a < b {
        lemma_total_targets_mono(pkgs, a, b - 1);
    }
}

/// Whether any package of the workspace opts into the private toolchain.
pub open spec fn any_rustc_private(cargo: &CargoWorkspace) -> bool {
    exists|p: int|
        0 <= p < cargo.packages@.len() && (#[trigger] cargo.packages@[p]).metadata.rustc_private
}

/// An upper bound on the nodes one build can create: one per sysroot
/// crate, workspace target and private-toolchain target.
pub open spec fn spec_node_budget(
    cargo: &CargoWorkspace,
    sysroot: Option<&Sysroot>,
    rustc: &Option<CargoWorkspace>,
) -> nat {
    (match sysroot {
        Some(s) => s.crates@.len(),
        None => 0nat,
    }) + total_targets_before(cargo.packages@, cargo.packages@.len() as int) + (match rustc {
        Some(rw) => total_targets_before(rw.packages@, rw.packages@.len() as int),
        None => 0nat,
    })
}

/// Every crate name a build must validate is structurally valid.
pub open spec fn build_names_ok(
    cargo: &CargoWorkspace,
    sysroot: Option<&Sysroot>,
    rustc: &Option<CargoWorkspace>,
) -> bool {
    &&& (sysroot matches Some(s) ==> sysroot_dep_names_valid(s) && sysroot_public_names_valid(s))
    &&& cargo_dep_names_valid(cargo)
    &&& (rustc matches Some(rw) ==> cargo_dep_names_valid(rw))
}

} // verus!

verus! {

impl CrateGraphJson {
    /// Builds the crate-graph snapshot for a resolved workspace: imports
    /// the sysroot (when one is supplied), creates one node per
    /// resolvable target of each package under the package's effective
    /// configuration, links each package's non-library targets to its
    /// library and every crate to the public sysroot crates, then links
    /// the packages' declared dependencies, and finally imports the
    /// private toolchain if any package opted in and one is supplied.
    ///
    /// The nodes of the result are exactly the sysroot nodes followed by
    /// the packages' target nodes, and its edges are exactly the sysroot
    /// edges, the package-linking edges and the inter-package edges, in
    /// that order — followed, when the private toolchain ran, by what the
    /// import appended. Every edge stays within the node count, and every
    /// node's potential configuration covers its active configuration.
    /// The build fails if and only if it meets a structurally invalid
    /// crate name; no snapshot is returned then.
    pub fn cargo_to_json(
        rustc_cfg: &Vec<CfgFlag>,
        override_cfg: &crate::cfg_data::CfgOverrides,
        load_proc_macro: &ProcMacroLoader,
        load: &FileLoader,
        cargo: &CargoWorkspace,
        build_scripts: &crate::workspace::WorkspaceBuildScripts,
        sysroot: Option<&Sysroot>,
        rustc: &Option<CargoWorkspace>,
    ) -> (r: Result<CrateGraphJson, BuildError>)
        requires
            cargo.wf(),
            (sysroot matches Some(s) ==> s.wf() && sysroot_public_resolvable(s, load)),
            (rustc matches Some(rw) ==> rw.wf()),
            spec_node_budget(cargo, sysroot, rustc) < u32::MAX as nat,
        ensures
            build_names_ok(cargo, sysroot, rustc) ==> r is Ok,
            r is Err ==> !build_names_ok(cargo, sysroot, rustc),
            r matches Ok(g) ==> {
                let sys_roots = match sysroot {
                    Some(s) => spec_sysroot_roots(
                        s,
                        load,
                        spec_pairs(sysroot_base_cfg(rustc_cfg@)),
                        s.crates@.len() as int,
                    ),
                    None => Seq::<CrateRootView>::empty(),
                };
                let base_roots = sys_roots + spec_all_package_roots(
                    cargo,
                    load,
                    build_scripts,
                    spec_shared_base(rustc_cfg@),
                    override_cfg,
                    cargo.packages@.len() as int,
                );
                let sys_edges = match sysroot {
                    Some(s) => spec_sysroot_edges(
                        s,
                        sysroot_ids(s, load, 0),
                        s.crates@.len() as int,
                    ),
                    None => Seq::<DepView>::empty(),
                };
                let pubs = match sysroot {
                    Some(s) => spec_sysroot_public_list(s, load),
                    None => Seq::<(Seq<char>, u32)>::empty(),
                };
                let libproc = match sysroot {
                    Some(s) => spec_libproc(s, load),
                    None => None::<u32>,
                };
                let sb = spec_shared_base(rustc_cfg@);
                let sc = sys_roots.len() as int;
                let np = cargo.packages@.len() as int;
                let base_deps = sys_edges + spec_phase1_edges(
                    cargo,
                    load,
                    build_scripts,
                    sb,
                    override_cfg,
                    sc,
                    libproc,
                    pubs,
                    np,
                ) + spec_phase2_edges(
                    cargo,
                    spec_pkg_to_lib(cargo, load, build_scripts, sb, override_cfg, sc),
                    spec_crates_table(cargo, load, build_scripts, sb, override_cfg, sc),
                    np,
                );
                &&& base_deps.is_prefix_of(g@.deps)
                &&& (!(any_rustc_private(cargo) && *rustc is Some) ==> g@.deps == base_deps)
                &&& crate::graph_json::graph_wf(g@)
                &&& (forall|i: int|
                    0 <= i < g@.roots.len() ==> cfg_pairs_superset(
                        (#[trigger] g@.roots[i]).potential_cfg_options,
                        g@.roots[i].cfg_options,
                    ))
                &&& base_roots.is_prefix_of(g@.roots)
                &&& (!(any_rustc_private(cargo) && *rustc is Some) ==> g@.roots == base_roots)
                &&& (rustc matches Some(rw) ==> (any_rustc_private(cargo) ==> (match first_named(
                    rw.packages@,
                    "rustc_driver"@,
                ) {
                    Some(rp) => root_libs_imported_upto(
                        rw,
                        load,
                        spec_shared_base(rustc_cfg@),
                        rp,
                        rw.packages@[rp].targets@.len() as int,
                        g@.roots,
                    ),
                    None => g@.roots == base_roots,
                })))
                &&& (sysroot matches Some(s) ==> sysroot_dep_names_valid(s)
                    && sysroot_public_names_valid(s))
                &&& cargo_dep_names_valid(cargo)
            },
    {
        let mut crate_graph_json = CrateGraphJson::default();
        let ghost cfgp = spec_pairs(sysroot_base_cfg(rustc_cfg@));
        let ghost sys_roots: Seq<CrateRootView> = match sysroot {
            Some(s) => spec_sysroot_roots(s, load, cfgp, s.crates@.len() as int),
            None => Seq::<CrateRootView>::empty(),
        };

        let (public_deps, libproc_macro): (Vec<(String, u32)>, Option<u32>) = match sysroot {
            Some(s) => {
                match sysroot_to_crate_graph(&mut crate_graph_json, s, rustc_cfg, load) {
                    Ok(pl) => {
                        proof {
                            assert(crate_graph_json@.roots =~= sys_roots);
                            let n_sys = s.crates@.len() as int;
                            lemma_sysroot_roots_len(s, load, cfgp, n_sys);
                            let ids = sysroot_ids(s, load, 0);
                            assert forall|q: int|
                                0 <= q < pl.0@.len() implies (#[trigger] pl.0@[q]).1
                                < crate_graph_json@.roots.len() by {
                                let idx = s.public_deps@[q].1 as int;
                                assert(sysroot_resolvable(s, load, idx));
                                assert(Some(pl.0@[q].1) == ids[idx]);
                                lemma_resolved_before_mono(s, load, idx + 1, n_sys);
                                lemma_resolved_before_le(s, load, idx);
                            }
                            match s.proc_macro {
                                Some(i) => {
                                    if pl.1 is Some {
                                        assert(ids[i as int] == pl.1);
                                        assert(sysroot_resolvable(s, load, i as int));
                                        lemma_resolved_before_mono(s, load, i + 1, n_sys);
                                        lemma_resolved_before_le(s, load, i as int);
                                    }
                                },
                                None => {},
                            }
                            lemma_sysroot_roots_uniform(s, load, cfgp, n_sys);
                            assert forall|i: int|
                                0 <= i < crate_graph_json@.roots.len() implies cfg_pairs_superset(
                                (#[trigger] crate_graph_json@.roots[i]).potential_cfg_options,
                                crate_graph_json@.roots[i].cfg_options,
                            ) by {
                                lemma_pairs_superset_refl(cfgp);
                            }
                        }
                        pl
                    },
                    Err(e) => {
                        return Err(e);
                    },
                }
            },
            None => {
                proof {
                    assert(crate_graph_json@.roots =~= sys_roots);
                }
                (Vec::new(), None)
            },
        };
        let ghost sys_count = sys_roots.len();
        let ghost sys_edges: Seq<DepView> = match sysroot {
            Some(s) => spec_sysroot_edges(s, sysroot_ids(s, load, 0), s.crates@.len() as int),
            None => Seq::<DepView>::empty(),
        };
        let ghost pubs_v: Seq<(Seq<char>, u32)> = match sysroot {
            Some(s) => spec_sysroot_public_list(s, load),
            None => Seq::<(Seq<char>, u32)>::empty(),
        };
        let ghost libproc_v: Option<u32> = match sysroot {
            Some(s) => spec_libproc(s, load),
            None => None::<u32>,
        };
        proof {
            match sysroot {
                Some(s) => {
                    assert(crate_graph_json@.deps =~= sys_edges);
                    assert(public_deps@.len() == pubs_v.len());
                    assert forall|q: int|
                        0 <= q < public_deps@.len() implies ((#[trigger] public_deps@[q]).0@, public_deps@[q].1)
                        == pubs_v[q] by {
                        let idx = s.public_deps@[q].1 as int;
                        assert(sysroot_ids(s, load, 0)[idx] == sysroot_id(s, load, 0, idx));
                        assert(sysroot_resolvable(s, load, idx));
                    }
                    match s.proc_macro {
                        Some(i) => {
                            assert(sysroot_ids(s, load, 0)[i as int] == sysroot_id(
                                s,
                                load,
                                0,
                                i as int,
                            ));
                            assert(libproc_macro == libproc_v);
                        },
                        None => {
                            assert(libproc_macro == libproc_v);
                        },
                    }
                },
                None => {
                    assert(crate_graph_json@.deps =~= sys_edges);
                    assert(public_deps@.len() == pubs_v.len());
                    assert(libproc_macro == libproc_v);
                },
            }
        }

        // The shared base configuration: platform flags plus the fixed
        // atoms for workspace crates.
        let mut cfg_options = CfgOptions::default();
        cfg_options.extend(rustc_cfg);
        cfg_options.insert_atom(String::from_str("test"));
        cfg_options.insert_atom(String::from_str("debug_assertions"));
        let ghost sb = spec_shared_base(rustc_cfg@);
        proof {
            assert(cfg_options@ == sb);
        }

        let npkgs = cargo.packages.len();
        let ghost total_cargo = total_targets_before(cargo.packages@, npkgs as int);
        let ghost rustc_total: nat = match rustc {
            Some(rw) => total_targets_before(rw.packages@, rw.packages@.len() as int),
            None => 0nat,
        };

        let mut pkg_to_lib_crate: Vec<Option<u32>> = Vec::new();
        let mut i: usize = 0;
        while i < npkgs
            invariant
                0 <= i <= npkgs,
                pkg_to_lib_crate@.len() == i,
                forall|x: int| 0 <= x < i ==> (#[trigger] pkg_to_lib_crate@[x]) is None,
            decreases npkgs - i,
        {
            pkg_to_lib_crate.push(None);
            i = i + 1;
        }

        let mut pkg_crates: Vec<Vec<(u32, TargetKind)>> = Vec::new();
        let mut has_private = false;
        proof {
            match sysroot {
                Some(s) => {
                    lemma_sysroot_roots_len(s, load, cfgp, s.crates@.len() as int);
                    lemma_resolved_before_le(s, load, s.crates@.len() as int);
                },
                None => {},
            }
        }

        let mut p: usize = 0;
        while p < npkgs
            invariant
                0 <= p <= npkgs,
                npkgs == cargo.packages@.len(),
                cargo.wf(),
                sys_count == sys_roots.len(),
                total_cargo == total_targets_before(cargo.packages@, npkgs as int),
                sys_count + total_cargo + rustc_total < u32::MAX as nat,
                sb == spec_shared_base(rustc_cfg@),
                cfg_options@ == sb,
                crate_graph_json@.roots == sys_roots + spec_all_package_roots(
                    cargo,
                    load,
                    build_scripts,
                    sb,
                    override_cfg,
                    p as int,
                ),
                crate::graph_json::graph_wf(crate_graph_json@),
                forall|i2: int|
                    0 <= i2 < crate_graph_json@.roots.len() ==> cfg_pairs_superset(
                        (#[trigger] crate_graph_json@.roots[i2]).potential_cfg_options,
                        crate_graph_json@.roots[i2].cfg_options,
                    ),
                pkg_to_lib_crate@.len() == npkgs,
                forall|x: int|
                    0 <= x < npkgs ==> ((#[trigger] pkg_to_lib_crate@[x]) matches Some(id)
                        ==> id < crate_graph_json@.roots.len()),
                forall|x: int|
                    0 <= x < p ==> (#[trigger] pkg_to_lib_crate@[x]) == spec_pkg_to_lib(
                        cargo,
                        load,
                        build_scripts,
                        sb,
                        override_cfg,
                        sys_count as int,
                    )[x],
                forall|x: int| p <= x < npkgs ==> (#[trigger] pkg_to_lib_crate@[x]) is None,
                pkg_crates@.len() == p,
                forall|x: int, y: int|
                    0 <= x < pkg_crates@.len() && 0 <= y < pkg_crates@[x]@.len()
                        ==> (#[trigger] pkg_crates@[x]@[y]).0 < crate_graph_json@.roots.len(),
                forall|x: int|
                    0 <= x < p ==> (#[trigger] pkg_crates@[x])@ == spec_crates_table(
                        cargo,
                        load,
                        build_scripts,
                        sb,
                        override_cfg,
                        sys_count as int,
                    )[x],
                forall|q: int|
                    0 <= q < public_deps@.len() ==> (#[trigger] public_deps@[q]).1
                        < crate_graph_json@.roots.len(),
                (libproc_macro matches Some(pm) ==> pm < crate_graph_json@.roots.len()),
                public_deps@.len() == pubs_v.len(),
                forall|q: int|
                    0 <= q < public_deps@.len() ==> ((#[trigger] public_deps@[q]).0@, public_deps@[q].1)
                        == pubs_v[q],
                libproc_macro == libproc_v,
                crate_graph_json@.deps == sys_edges + spec_phase1_edges(
                    cargo,
                    load,
                    build_scripts,
                    sb,
                    override_cfg,
                    sys_count as int,
                    libproc_v,
                    pubs_v,
                    p as int,
                ),
                has_private == (exists|x: int|
                    0 <= x < p && (#[trigger] cargo.packages@[x]).metadata.rustc_private),
            decreases npkgs - p,
        {
            // The package's effective configuration: its override is
            // applied to a copy of the shared base.
            let pkg_cfg: CfgOptions = match override_cfg.get(cargo.packages[p].name.as_str()) {
                Some(diff) => {
                    let mut replaced = cfg_options.clone();
                    replaced.apply_diff(diff);
                    replaced
                },
                None => cfg_options.clone(),
            };
            proof {
                assert(pkg_cfg@ == spec_pkg_base_cfg(
                    sb,
                    override_cfg,
                    cargo.packages@[p as int].name@,
                ));
            }

            if cargo.packages[p].metadata.rustc_private {
                has_private = true;
            }
            proof {
                if cargo.packages@[p as int].metadata.rustc_private {
                    assert(exists|x: int|
                        0 <= x < p + 1 && (#[trigger] cargo.packages@[x]).metadata.rustc_private);
                }
            }

            let build_data = build_scripts.get(p);
            let ghost bd = build_scripts.spec_get(p as int);

            let mut lib_tgt: Option<(u32, String)> = None;
            let mut this_pkg_crates: Vec<(u32, TargetKind)> = Vec::new();
            let ghost roots_at_pkg = crate_graph_json@.roots;
            let mut t: usize = 0;
            while t < cargo.packages[p].targets.len()
                invariant
                    0 <= p < npkgs,
                    0 <= t <= cargo.packages@[p as int].targets@.len(),
                    npkgs == cargo.packages@.len(),
                    cargo.wf(),
                    sys_count == sys_roots.len(),
                    total_cargo == total_targets_before(cargo.packages@, npkgs as int),
                    sys_count + total_cargo + rustc_total < u32::MAX as nat,
                    sb == spec_shared_base(rustc_cfg@),
                    pkg_cfg@ == spec_pkg_base_cfg(
                        sb,
                        override_cfg,
                        cargo.packages@[p as int].name@,
                    ),
                    bd == build_scripts.spec_get(p as int),
                    (match build_data {
                        Some(b) => bd == Some(*b),
                        None => bd is None,
                    }),
                    roots_at_pkg == sys_roots + spec_all_package_roots(
                        cargo,
                        load,
                        build_scripts,
                        sb,
                        override_cfg,
                        p as int,
                    ),
                    crate_graph_json@.roots == roots_at_pkg + spec_package_roots(
                        cargo,
                        load,
                        build_scripts,
                        sb,
                        override_cfg,
                        p as int,
                        t as int,
                    ),
                    crate::graph_json::graph_wf(crate_graph_json@),
                    forall|i2: int|
                        0 <= i2 < crate_graph_json@.roots.len() ==> cfg_pairs_superset(
                            (#[trigger] crate_graph_json@.roots[i2]).potential_cfg_options,
                            crate_graph_json@.roots[i2].cfg_options,
                        ),
                    pkg_to_lib_crate@.len() == npkgs,
                    forall|x: int|
                        0 <= x < npkgs ==> ((#[trigger] pkg_to_lib_crate@[x]) matches Some(id)
                            ==> id < crate_graph_json@.roots.len()),
                    forall|x: int|
                        0 <= x < p ==> (#[trigger] pkg_to_lib_crate@[x]) == spec_pkg_to_lib(
                            cargo,
                            load,
                            build_scripts,
                            sb,
                            override_cfg,
                            sys_count as int,
                        )[x],
                    forall|x: int| p < x < npkgs ==> (#[trigger] pkg_to_lib_crate@[x]) is None,
                    pkg_to_lib_crate@[p as int] == (match spec_lib_tgt(
                        cargo,
                        load,
                        build_scripts,
                        sb,
                        override_cfg,
                        sys_count as int,
                        p as int,
                        t as int,
                    ) {
                        Some(lt) => Some(lt.0),
                        None => None::<u32>,
                    }),
                    pkg_crates@.len() == p,
                    forall|x: int, y: int|
                        0 <= x < pkg_crates@.len() && 0 <= y < pkg_crates@[x]@.len()
                            ==> (#[trigger] pkg_crates@[x]@[y]).0 < crate_graph_json@.roots.len(),
                    forall|x: int|
                        0 <= x < p ==> (#[trigger] pkg_crates@[x])@ == spec_crates_table(
                            cargo,
                            load,
                            build_scripts,
                            sb,
                            override_cfg,
                            sys_count as int,
                        )[x],
                    forall|y: int|
                        0 <= y < this_pkg_crates@.len() ==> (#[trigger] this_pkg_crates@[y]).0
                            < crate_graph_json@.roots.len(),
                    this_pkg_crates@ == spec_pkg_crates(
                        cargo,
                        load,
                        build_scripts,
                        sb,
                        override_cfg,
                        sys_count as int,
                        p as int,
                        t as int,
                    ),
                    (match lib_tgt {
                        Some(lt) => spec_lib_tgt(
                            cargo,
                            load,
                            build_scripts,
                            sb,
                            override_cfg,
                            sys_count as int,
                            p as int,
                            t as int,
                        ) == Some((lt.0, lt.1@)),
                        None => spec_lib_tgt(
                            cargo,
                            load,
                            build_scripts,
                            sb,
                            override_cfg,
                            sys_count as int,
                            p as int,
                            t as int,
                        ) is None,
                    }),
                    (lib_tgt matches Some(lt) ==> lt.0 < crate_graph_json@.roots.len()),
                    forall|q: int|
                        0 <= q < public_deps@.len() ==> (#[trigger] public_deps@[q]).1
                            < crate_graph_json@.roots.len(),
                    (libproc_macro matches Some(pm) ==> pm < crate_graph_json@.roots.len()),
                    public_deps@.len() == pubs_v.len(),
                    forall|q: int|
                        0 <= q < public_deps@.len() ==> ((#[trigger] public_deps@[q]).0@, public_deps@[q].1)
                            == pubs_v[q],
                    libproc_macro == libproc_v,
                    crate_graph_json@.deps == sys_edges + spec_phase1_edges(
                        cargo,
                        load,
                        build_scripts,
                        sb,
                        override_cfg,
                        sys_count as int,
                        libproc_v,
                        pubs_v,
                        p as int,
                    ) + spec_pkg_macro_edges(
                        cargo,
                        load,
                        build_scripts,
                        sb,
                        override_cfg,
                        sys_count as int,
                        libproc_v,
                        p as int,
                        t as int,
                    ),
                decreases cargo.packages@[p as int].targets@.len() - t,
            {
                let tgt = cargo.packages[p].targets[t];
                match load.load(cargo.targets[tgt].root.as_str()) {
                    Some(file_id) => {
                        proof {
                            lemma_all_package_roots_len_le(
                                cargo,
                                load,
                                build_scripts,
                                sb,
                                override_cfg,
                                p as int,
                            );
                            lemma_total_targets_mono(cargo.packages@, p + 1, npkgs as int);
                            lemma_package_roots_len_le(
                                cargo,
                                load,
                                build_scripts,
                                sb,
                                override_cfg,
                                p as int,
                                t as int,
                            );
                            assert(total_targets_before(cargo.packages@, p + 1)
                                == total_targets_before(cargo.packages@, p as int)
                                + cargo.packages@[p as int].targets@.len());
                            assert(crate_graph_json@.roots.len() < sys_count + total_cargo);
                        }
                        let ghost roots_before = crate_graph_json@.roots;
                        let crate_id = add_target_crate_root(
                            &mut crate_graph_json,
                            &cargo.packages[p],
                            build_data,
                            &pkg_cfg,
                            load_proc_macro,
                            file_id,
                            cargo.targets[tgt].name.as_str(),
                        );
                        proof {
                            assert(crate_graph_json@.roots =~= roots_at_pkg + spec_package_roots(
                                cargo,
                                load,
                                build_scripts,
                                sb,
                                override_cfg,
                                p as int,
                                t + 1,
                            ));
                        }
                        proof {
                            assert(crate_id == pkg_target_id(
                                cargo,
                                load,
                                build_scripts,
                                sb,
                                override_cfg,
                                sys_count as int,
                                p as int,
                                t as int,
                            ));
                        }
                        let target_kind = cargo.targets[tgt].kind;
                        if target_kind == TargetKind::Lib {
                            lib_tgt = Some((crate_id, cargo.targets[tgt].name.clone()));
                            pkg_to_lib_crate.set(p, Some(crate_id));
                        }
                        match libproc_macro {
                            Some(pm) => {
                                // The macro-support crate serves source
                                // analysis; build scripts do not use it.
                                if target_kind != TargetKind::BuildScript {
                                    add_dep(
                                        &mut crate_graph_json,
                                        crate_id,
                                        String::from_str("proc_macro"),
                                        pm,
                                    );
                                }
                            },
                            None => {},
                        }
                        this_pkg_crates.push((crate_id, target_kind));
                        proof {
                            assert(this_pkg_crates@ =~= spec_pkg_crates(
                                cargo,
                                load,
                                build_scripts,
                                sb,
                                override_cfg,
                                sys_count as int,
                                p as int,
                                t + 1,
                            ));
                            assert(crate_graph_json@.deps =~= sys_edges + spec_phase1_edges(
                                cargo,
                                load,
                                build_scripts,
                                sb,
                                override_cfg,
                                sys_count as int,
                                libproc_v,
                                pubs_v,
                                p as int,
                            ) + spec_pkg_macro_edges(
                                cargo,
                                load,
                                build_scripts,
                                sb,
                                override_cfg,
                                sys_count as int,
                                libproc_v,
                                p as int,
                                t + 1,
                            ));
                        }
                    },
                    None => {
                        proof {
                            assert(crate_graph_json@.roots =~= roots_at_pkg + spec_package_roots(
                                cargo,
                                load,
                                build_scripts,
                                sb,
                                override_cfg,
                                p as int,
                                t + 1,
                            ));
                            assert(this_pkg_crates@ =~= spec_pkg_crates(
                                cargo,
                                load,
                                build_scripts,
                                sb,
                                override_cfg,
                                sys_count as int,
                                p as int,
                                t + 1,
                            ));
                        }
                    },
                }
                t = t + 1;
            }

            // Intra-package edges: every crate of the package links to
            // the package's library (never a build script to it, never
            // the library to itself) and to the public sysroot crates.
            let ghost roots_after_pkg = crate_graph_json@.roots;
            let ghost n_t = cargo.packages@[p as int].targets@.len() as int;
            let ghost crates_v = spec_pkg_crates(
                cargo,
                load,
                build_scripts,
                sb,
                override_cfg,
                sys_count as int,
                p as int,
                n_t,
            );
            let ghost lib_v = spec_lib_tgt(
                cargo,
                load,
                build_scripts,
                sb,
                override_cfg,
                sys_count as int,
                p as int,
                n_t,
            );
            let ghost pre_pkg_deps = crate_graph_json@.deps;
            proof {
                assert(crate_graph_json@.deps =~= pre_pkg_deps + spec_pkg_intra_edges(
                    lib_v,
                    crates_v,
                    pubs_v,
                    0,
                ));
            }
            let mut c: usize = 0;
            while c < this_pkg_crates.len()
                invariant
                    0 <= c <= this_pkg_crates@.len(),
                    crate_graph_json@.roots == roots_after_pkg,
                    crate::graph_json::graph_wf(crate_graph_json@),
                    forall|i2: int|
                        0 <= i2 < crate_graph_json@.roots.len() ==> cfg_pairs_superset(
                            (#[trigger] crate_graph_json@.roots[i2]).potential_cfg_options,
                            crate_graph_json@.roots[i2].cfg_options,
                        ),
                    forall|y: int|
                        0 <= y < this_pkg_crates@.len() ==> (#[trigger] this_pkg_crates@[y]).0
                            < crate_graph_json@.roots.len(),
                    this_pkg_crates@ == crates_v,
                    (match lib_tgt {
                        Some(lt) => lib_v == Some((lt.0, lt.1@)),
                        None => lib_v is None,
                    }),
                    (lib_tgt matches Some(lt) ==> lt.0 < crate_graph_json@.roots.len()),
                    forall|q: int|
                        0 <= q < public_deps@.len() ==> (#[trigger] public_deps@[q]).1
                            < crate_graph_json@.roots.len(),
                    public_deps@.len() == pubs_v.len(),
                    forall|q: int|
                        0 <= q < public_deps@.len() ==> ((#[trigger] public_deps@[q]).0@, public_deps@[q].1)
                            == pubs_v[q],
                    crate_graph_json@.deps == pre_pkg_deps + spec_pkg_intra_edges(
                        lib_v,
                        crates_v,
                        pubs_v,
                        c as int,
                    ),
                decreases this_pkg_crates@.len() - c,
            {
                let from = this_pkg_crates[c].0;
                let kind = this_pkg_crates[c].1;
                proof {
                    assert(crates_v[c as int] == (from, kind));
                }
                match &lib_tgt {
                    Some(lt) => {
                        let to = lt.0;
                        if to != from && kind != TargetKind::BuildScript {
                            let name = normalize_dashes(lt.1.as_str());
                            add_dep(&mut crate_graph_json, from, name, to);
                        }
                    },
                    None => {},
                }
                add_public_deps(&mut crate_graph_json, from, &public_deps);
                proof {
                    lemma_public_edges_views(from, public_deps@, pubs_v);
                    assert(crate_graph_json@.deps =~= pre_pkg_deps + spec_pkg_intra_edges(
                        lib_v,
                        crates_v,
                        pubs_v,
                        c + 1,
                    ));
                    assert forall|k: int|
                        0 <= k < crate_graph_json@.deps.len() implies (
                    #[trigger] crate_graph_json@.deps[k]).from < crate_graph_json@.roots.len()
                        && crate_graph_json@.deps[k].to < crate_graph_json@.roots.len() by {
                        let pubs = public_deps@;
                        let base_len = crate_graph_json@.deps.len() - pubs.len();
                        if k >= base_len {
                            assert(crate_graph_json@.deps[k] == spec_public_edges(from, pubs)[
                                k - base_len]);
                            assert(spec_public_edges(from, pubs)[k - base_len].to == pubs[
                                k - base_len].1);
                        }
                    }
                }
                c = c + 1;
            }
            pkg_crates.push(this_pkg_crates);
            proof {
                assert(spec_all_package_roots(
                    cargo,
                    load,
                    build_scripts,
                    sb,
                    override_cfg,
                    p + 1,
                ) == spec_all_package_roots(cargo, load, build_scripts, sb, override_cfg, p as int)
                    + spec_package_roots(
                    cargo,
                    load,
                    build_scripts,
                    sb,
                    override_cfg,
                    p as int,
                    cargo.packages@[p as int].targets@.len() as int,
                ));
                assert(crate_graph_json@.roots =~= sys_roots + spec_all_package_roots(
                    cargo,
                    load,
                    build_scripts,
                    sb,
                    override_cfg,
                    p + 1,
                ));
                assert(crate_graph_json@.deps =~= sys_edges + spec_phase1_edges(
                    cargo,
                    load,
                    build_scripts,
                    sb,
                    override_cfg,
                    sys_count as int,
                    libproc_v,
                    pubs_v,
                    p + 1,
                ));
                assert(pkg_crates@[p as int]@ == spec_crates_table(
                    cargo,
                    load,
                    build_scripts,
                    sb,
                    override_cfg,
                    sys_count as int,
                )[p as int]);
                assert(pkg_to_lib_crate@[p as int] == spec_pkg_to_lib(
                    cargo,
                    load,
                    build_scripts,
                    sb,
                    override_cfg,
                    sys_count as int,
                )[p as int]);
            }
            p = p + 1;
        }

        let ghost base_roots = crate_graph_json@.roots;

        // Inter-package edges: one edge per declared dependency and
        // admissible crate of the declaring package.
        proof {
            assert(pkg_to_lib_crate@ =~= spec_pkg_to_lib(
                cargo,
                load,
                build_scripts,
                sb,
                override_cfg,
                sys_count as int,
            ));
            assert(pkg_crates@.map_values(|v: Vec<(u32, TargetKind)>| v@) =~= spec_crates_table(
                cargo,
                load,
                build_scripts,
                sb,
                override_cfg,
                sys_count as int,
            ));
        }
        match add_inter_package_deps(&mut crate_graph_json, cargo, &pkg_to_lib_crate, &pkg_crates) {
            Ok(_) => {},
            Err(e) => {
                return Err(e);
            },
        }
        let ghost base_deps_v = sys_edges + spec_phase1_edges(
            cargo,
            load,
            build_scripts,
            sb,
            override_cfg,
            sys_count as int,
            libproc_v,
            pubs_v,
            npkgs as int,
        ) + spec_phase2_edges(
            cargo,
            spec_pkg_to_lib(cargo, load, build_scripts, sb, override_cfg, sys_count as int),
            spec_crates_table(cargo, load, build_scripts, sb, override_cfg, sys_count as int),
            npkgs as int,
        );
        proof {
            assert(crate_graph_json@.deps == base_deps_v);
        }

        // The private toolchain, if any package opted in and one is
        // supplied.
        if has_private {
            match rustc {
                Some(rustc_workspace) => {
                    proof {
                        lemma_all_package_roots_len_le(
                            cargo,
                            load,
                            build_scripts,
                            sb,
                            override_cfg,
                            npkgs as int,
                        );
                    }
                    match handle_rustc_crates(
                        rustc_workspace,
                        load,
                        &mut crate_graph_json,
                        &cfg_options,
                        load_proc_macro,
                        &public_deps,
                        cargo,
                        &pkg_crates,
                    ) {
                        Ok(_) => {
                            proof {
                                assert(base_roots.is_prefix_of(crate_graph_json@.roots));
                                assert forall|i2: int|
                                    0 <= i2 < crate_graph_json@.roots.len() implies cfg_pairs_superset(
                                    (
                                    #[trigger] crate_graph_json@.roots[i2]).potential_cfg_options,
                                    crate_graph_json@.roots[i2].cfg_options,
                                ) by {
                                    if i2 < base_roots.len() {
                                        assert(crate_graph_json@.roots[i2] == base_roots[i2]);
                                    }
                                }
                            }
                        },
                        Err(e) => {
                            return Err(e);
                        },
                    }
                },
                None => {},
            }
        }
        proof {
            assert(base_roots.is_prefix_of(crate_graph_json@.roots)) by {
                assert(base_roots =~= crate_graph_json@.roots.subrange(
                    0,
                    base_roots.len() as int,
                ));
            }
            assert(base_deps_v.is_prefix_of(crate_graph_json@.deps)) by {
                assert(base_deps_v =~= crate_graph_json@.deps.subrange(
                    0,
                    base_deps_v.len() as int,
                ));
            }
        }
        Ok(crate_graph_json)
    }
}

} // verus!

verus! {

/// The first package carrying a name.
pub open spec fn first_named(s: Seq<PackageData>, name: Seq<char>) -> Option<int>
    decreases s.len(),
{
    if s.len() == 0 {
        None
    } else if s.first().name@ == name {
        Some(0)
    } else {
        match first_named(s.drop_first(), name) {
            Some(k) => Some(k + 1),
            None => None,
        }
    }
}

/// A match at the first position where the name occurs is what
/// `first_named` returns.
pub proof fn lemma_first_named_found(s: Seq<PackageData>, name: Seq<char>, i: int)
    requires
        0 <= i < s.len(),
        s[i].name@ == name,
        forall|j: int| 0 <= j < i ==> (#[trigger] s[j]).name@ != name,
    ensures
        first_named(s, name) == Some(i),
    decreases i,
{
    if i > 0 {
        let rest = s.drop_first();
        assert(rest[i - 1].name@ == name);
        assert(forall|j: int| 0 <= j < i - 1 ==> (#[trigger] rest[j]).name@ != name);
        lemma_first_named_found(rest, name, i - 1);
    }
}

/// A name that occurs nowhere finds nothing.
pub proof fn lemma_first_named_missing(s: Seq<PackageData>, name: Seq<char>)
    requires
        forall|j: int| 0 <= j < s.len() ==> (#[trigger] s[j]).name@ != name,
    ensures
        first_named(s, name) is None,
    decreases s.len(),
{
    if s.len() > 0 {
        let rest = s.drop_first();
        assert(forall|j: int| 0 <= j < rest.len() ==> (#[trigger] rest[j]).name@ != name);
        lemma_first_named_missing(rest, name);
    }
}

/// The node one library target of the toolchain root produced is
/// present among the given nodes.
pub open spec fn root_lib_node_at(
    ws: &CargoWorkspace,
    load: &FileLoader,
    base: Seq<CfgFlagView>,
    rp: int,
    t: int,
    roots: Seq<CrateRootView>,
) -> bool {
    exists|i: int|
        0 <= i < roots.len() && (#[trigger] roots[i]) == spec_target_root(
            base,
            ws.packages@[rp],
            None,
            load.spec_load(ws.targets@[ws.packages@[rp].targets@[t] as int].root@)->0,
            ws.targets@[ws.packages@[rp].targets@[t] as int].name@,
        )
}

/// Every resolvable library target among the first `upto` of the
/// toolchain root package has produced its node.
pub open spec fn root_libs_imported_upto(
    ws: &CargoWorkspace,
    load: &FileLoader,
    base: Seq<CfgFlagView>,
    rp: int,
    upto: int,
    roots: Seq<CrateRootView>,
) -> bool {
    forall|t: int|
        0 <= t < upto && (#[trigger] ws.targets@[ws.packages@[rp].targets@[t] as int]).kind
            == TargetKind::Lib && load.spec_load(
            ws.targets@[ws.packages@[rp].targets@[t] as int].root@,
        ) is Some ==> root_lib_node_at(ws, load, base, rp, t, roots)
}

/// Imported root nodes survive appending further nodes.
pub proof fn lemma_root_nodes_stable(
    ws: &CargoWorkspace,
    load: &FileLoader,
    base: Seq<CfgFlagView>,
    rp: int,
    upto: int,
    roots1: Seq<CrateRootView>,
    roots2: Seq<CrateRootView>,
)
    requires
        root_libs_imported_upto(ws, load, base, rp, upto, roots1),
        roots1.is_prefix_of(roots2),
    ensures
        root_libs_imported_upto(ws, load, base, rp, upto, roots2),
{
    assert forall|t: int|
        0 <= t < upto && (#[trigger] ws.targets@[ws.packages@[rp].targets@[t] as int]).kind
            == TargetKind::Lib && load.spec_load(
            ws.targets@[ws.packages@[rp].targets@[t] as int].root@,
        ) is Some implies root_lib_node_at(ws, load, base, rp, t, roots2) by {
        assert(root_lib_node_at(ws, load, base, rp, t, roots1));
        let node = spec_target_root(
            base,
            ws.packages@[rp],
            None,
            load.spec_load(ws.targets@[ws.packages@[rp].targets@[t] as int].root@)->0,
            ws.targets@[ws.packages@[rp].targets@[t] as int].name@,
        );
        let w = choose|i: int| 0 <= i < roots1.len() && (#[trigger] roots1[i]) == node;
        assert(roots1 =~= roots2.subrange(0, roots1.len() as int));
        assert(roots2[w] == roots1[w]);
    }
}

} // verus!

verus! {

/// The public-dependency entries as plain values: each sysroot public
/// entry's name with the node identity its crate received.
pub open spec fn spec_sysroot_public_list(s: &Sysroot, load: &FileLoader) -> Seq<
    (Seq<char>, u32),
> {
    Seq::new(
        s.public_deps@.len(),
        |q: int|
            (
                s.public_deps@[q].0@,
                sysroot_id(s, load, 0, s.public_deps@[q].1 as int)->0,
            ),
    )
}

/// The macro-support crate's node identity, if the sysroot marks one and
/// it resolved.
pub open spec fn spec_libproc(s: &Sysroot, load: &FileLoader) -> Option<u32> {
    match s.proc_macro {
        Some(i) => sysroot_id(s, load, 0, i as int),
        None => None,
    }
}

/// The public-dependency edges of one crate, over plain values.
pub open spec fn spec_public_edges_v(from: u32, pubs: Seq<(Seq<char>, u32)>) -> Seq<DepView> {
    pubs.map_values(|e: (Seq<char>, u32)| DepView { from, name: e.0, to: e.1 })
}

/// Both readings of the public list give the same edges.
pub proof fn lemma_public_edges_views(
    from: u32,
    pubs: Seq<(String, u32)>,
    pubs_v: Seq<(Seq<char>, u32)>,
)
    requires
        pubs.len() == pubs_v.len(),
        forall|q: int| 0 <= q < pubs.len() ==> ((#[trigger] pubs[q]).0@, pubs[q].1) == pubs_v[q],
    ensures
        spec_public_edges(from, pubs) == spec_public_edges_v(from, pubs_v),
{
    assert(spec_public_edges(from, pubs) =~= spec_public_edges_v(from, pubs_v));
}

/// The node identity the `t`-th target of package `p` receives if its
/// source resolves: the number of nodes created before it.
pub open spec fn pkg_target_id(
    cargo: &CargoWorkspace,
    load: &FileLoader,
    bs: &crate::workspace::WorkspaceBuildScripts,
    base: Seq<CfgFlagView>,
    ov: &crate::cfg_data::CfgOverrides,
    sys_count: int,
    p: int,
    t: int,
) -> int {
    sys_count + spec_all_package_roots(cargo, load, bs, base, ov, p).len() + spec_package_roots(
        cargo,
        load,
        bs,
        base,
        ov,
        p,
        t,
    ).len()
}

/// The (identity, kind) pairs of the crates the first `upto` targets of
/// package `p` produce.
pub open spec fn spec_pkg_crates(
    cargo: &CargoWorkspace,
    load: &FileLoader,
    bs: &crate::workspace::WorkspaceBuildScripts,
    base: Seq<CfgFlagView>,
    ov: &crate::cfg_data::CfgOverrides,
    sys_count: int,
    p: int,
    upto: int,
) -> Seq<(u32, TargetKind)>
    decreases upto,
{
    if upto <= 0 {
        Seq::empty()
    } else {
        let prefix = spec_pkg_crates(cargo, load, bs, base, ov, sys_count, p, upto - 1);
        let tgt = cargo.packages@[p].targets@[upto - 1] as int;
        match load.spec_load(cargo.targets@[tgt].root@) {
            Some(_) => prefix.push(
                (
                    pkg_target_id(cargo, load, bs, base, ov, sys_count, p, upto - 1) as u32,
                    cargo.targets@[tgt].kind,
                ),
            ),
            None => prefix,
        }
    }
}

/// The library crate of package `p` after its first `upto` targets: the
/// identity and target name of the last resolvable library target.
pub open spec fn spec_lib_tgt(
    cargo: &CargoWorkspace,
    load: &FileLoader,
    bs: &crate::workspace::WorkspaceBuildScripts,
    base: Seq<CfgFlagView>,
    ov: &crate::cfg_data::CfgOverrides,
    sys_count: int,
    p: int,
    upto: int,
) -> Option<(u32, Seq<char>)>
    decreases upto,
{
    if upto <= 0 {
        None
    } else {
        let prev = spec_lib_tgt(cargo, load, bs, base, ov, sys_count, p, upto - 1);
        let tgt = cargo.packages@[p].targets@[upto - 1] as int;
        if load.spec_load(cargo.targets@[tgt].root@) is Some && cargo.targets@[tgt].kind
            == TargetKind::Lib {
            Some(
                (
                    pkg_target_id(cargo, load, bs, base, ov, sys_count, p, upto - 1) as u32,
                    cargo.targets@[tgt].name@,
                ),
            )
        } else {
            prev
        }
    }
}

/// The library-identity table of the whole workspace.
pub open spec fn spec_pkg_to_lib(
    cargo: &CargoWorkspace,
    load: &FileLoader,
    bs: &crate::workspace::WorkspaceBuildScripts,
    base: Seq<CfgFlagView>,
    ov: &crate::cfg_data::CfgOverrides,
    sys_count: int,
) -> Seq<Option<u32>> {
    Seq::new(
        cargo.packages@.len(),
        |p: int|
            match spec_lib_tgt(
                cargo,
                load,
                bs,
                base,
                ov,
                sys_count,
                p,
                cargo.packages@[p].targets@.len() as int,
            ) {
                Some(lt) => Some(lt.0),
                None => None,
            },
    )
}

/// The crate table of the whole workspace: one (identity, kind) list per
/// package.
pub open spec fn spec_crates_table(
    cargo: &CargoWorkspace,
    load: &FileLoader,
    bs: &crate::workspace::WorkspaceBuildScripts,
    base: Seq<CfgFlagView>,
    ov: &crate::cfg_data::CfgOverrides,
    sys_count: int,
) -> Seq<Seq<(u32, TargetKind)>> {
    Seq::new(
        cargo.packages@.len(),
        |p: int|
            spec_pkg_crates(
                cargo,
                load,
                bs,
                base,
                ov,
                sys_count,
                p,
                cargo.packages@[p].targets@.len() as int,
            ),
    )
}

/// The macro-support edges of package `p`'s first `upto` targets: one
/// edge per resolvable non-build-script target, when a macro-support
/// crate is known.
pub open spec fn spec_pkg_macro_edges(
    cargo: &CargoWorkspace,
    load: &FileLoader,
    bs: &crate::workspace::WorkspaceBuildScripts,
    base: Seq<CfgFlagView>,
    ov: &crate::cfg_data::CfgOverrides,
    sys_count: int,
    libproc: Option<u32>,
    p: int,
    upto: int,
) -> Seq<DepView>
    decreases upto,
{
    if upto <= 0 {
        Seq::empty()
    } else {
        let prefix = spec_pkg_macro_edges(
            cargo,
            load,
            bs,
            base,
            ov,
            sys_count,
            libproc,
            p,
            upto - 1,
        );
        let tgt = cargo.packages@[p].targets@[upto - 1] as int;
        match (load.spec_load(cargo.targets@[tgt].root@), libproc) {
            (Some(_), Some(pm)) => if cargo.targets@[tgt].kind != TargetKind::BuildScript {
                prefix.push(
                    DepView {
                        from: pkg_target_id(cargo, load, bs, base, ov, sys_count, p, upto - 1)
                            as u32,
                        name: "proc_macro"@,
                        to: pm,
                    },
                )
            } else {
                prefix
            },
            _ => prefix,
        }
    }
}

/// The intra-package edges of one crate: its edge to the package's
/// library (never from the library itself, never from a build script),
/// then its public sysroot edges.
pub open spec fn spec_crate_intra_edges(
    lib: Option<(u32, Seq<char>)>,
    entry: (u32, TargetKind),
    pubs: Seq<(Seq<char>, u32)>,
) -> Seq<DepView> {
    (match lib {
        Some(lt) => if lt.0 != entry.0 && entry.1 != TargetKind::BuildScript {
            seq![
                DepView {
                    from: entry.0,
                    name: crate::crate_name::spec_normalize_dashes(lt.1),
                    to: lt.0,
                },
            ]
        } else {
            Seq::empty()
        },
        None => Seq::empty(),
    }) + spec_public_edges_v(entry.0, pubs)
}

/// The intra-package edges of the first `upto` crates of one package.
pub open spec fn spec_pkg_intra_edges(
    lib: Option<(u32, Seq<char>)>,
    crates: Seq<(u32, TargetKind)>,
    pubs: Seq<(Seq<char>, u32)>,
    upto: int,
) -> Seq<DepView>
    decreases upto,
{
    if upto <= 0 {
        Seq::empty()
    } else {
        spec_pkg_intra_edges(lib, crates, pubs, upto - 1) + spec_crate_intra_edges(
            lib,
            crates[upto - 1],
            pubs,
        )
    }
}

/// All the edges package linking contributes for the first `upto`
/// packages: per package, its macro-support edges, then its intra-package
/// and public edges.
pub open spec fn spec_phase1_edges(
    cargo: &CargoWorkspace,
    load: &FileLoader,
    bs: &crate::workspace::WorkspaceBuildScripts,
    base: Seq<CfgFlagView>,
    ov: &crate::cfg_data::CfgOverrides,
    sys_count: int,
    libproc: Option<u32>,
    pubs: Seq<(Seq<char>, u32)>,
    upto: int,
) -> Seq<DepView>
    decreases upto,
{
    if upto <= 0 {
        Seq::empty()
    } else {
        let p = upto - 1;
        let n_t = cargo.packages@[p].targets@.len() as int;
        spec_phase1_edges(cargo, load, bs, base, ov, sys_count, libproc, pubs, upto - 1)
            + spec_pkg_macro_edges(cargo, load, bs, base, ov, sys_count, libproc, p, n_t)
            + spec_pkg_intra_edges(
            spec_lib_tgt(cargo, load, bs, base, ov, sys_count, p, n_t),
            spec_pkg_crates(cargo, load, bs, base, ov, sys_count, p, n_t),
            pubs,
            spec_pkg_crates(cargo, load, bs, base, ov, sys_count, p, n_t).len() as int,
        )
    }
}

} // verus!

verus! {

/// The nodes the first `upto` targets of one toolchain package produce:
/// one per resolvable library target, under the shared base
/// configuration and with no build-script output.
pub open spec fn spec_rustc_pkg_nodes(
    ws: &CargoWorkspace,
    load: &FileLoader,
    base: Seq<CfgFlagView>,
    rp: int,
    upto: int,
) -> Seq<CrateRootView>
    decreases upto,
{
    if upto <= 0 {
        Seq::empty()
    } else {
        let prefix = spec_rustc_pkg_nodes(ws, load, base, rp, upto - 1);
        let tgt = ws.packages@[rp].targets@[upto - 1] as int;
        if ws.targets@[tgt].kind == TargetKind::Lib {
            match load.spec_load(ws.targets@[tgt].root@) {
                Some(fid) => prefix.push(
                    spec_target_root(base, ws.packages@[rp], None, fid, ws.targets@[tgt].name@),
                ),
                None => prefix,
            }
        } else {
            prefix
        }
    }
}

/// The nodes a visit order of toolchain packages produces, package by
/// package.
pub open spec fn spec_rustc_order_nodes(
    ws: &CargoWorkspace,
    load: &FileLoader,
    base: Seq<CfgFlagView>,
    order: Seq<int>,
) -> Seq<CrateRootView>
    decreases order.len(),
{
    if order.len() == 0 {
        Seq::empty()
    } else {
        spec_rustc_order_nodes(ws, load, base, order.drop_last()) + spec_rustc_pkg_nodes(
            ws,
            load,
            base,
            order.last(),
            ws.packages@[order.last()].targets@.len() as int,
        )
    }
}

} // verus!
