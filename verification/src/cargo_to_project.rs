//! A direct sketch of a cargo workspace as a project description: one
//! crate per package, carrying only the package's name and edition. The
//! full graph construction lives in the snapshot builder; this mapping
//! keeps the same inputs so the two stay interchangeable.

use crate::cfg_data::{CfgFlag, CfgOverrides};
use crate::edition::{spec_edition_data_of, EditionData};
use crate::env_data::Env;
use crate::paths_data::PathData;
use crate::project_json::{CrateData, ProjectJsonData};
use crate::workspace::{CargoWorkspace, FileLoader, ProcMacroLoader, Sysroot, WorkspaceBuildScripts};
use vstd::prelude::*;

verus! {

/// The crate one package sketches to: its name as display name, its
/// edition, and everything else empty.
pub open spec fn spec_sketch_crate_ok(pkg: crate::workspace::PackageData, c: CrateData) -> bool {
    &&& (match c.display_name {
        Some(n) => n@ == pkg.name@,
        None => false,
    })
    &&& c.root_module@.absolute == false
    &&& c.root_module@.components.len() == 0
    &&& c.edition == spec_edition_data_of(pkg.edition)
    &&& c.deps@.len() == 0
    &&& c.cfg@.len() == 0
    &&& c.target is None
    &&& c.env@.len() == 0
    &&& c.proc_macro_dylib_path is None
    &&& c.is_workspace_member is None
    &&& c.source is None
    &&& c.is_proc_macro == false
}

/// Sketches a resolved cargo workspace as a project description: one
/// crate per package, in workspace order, with no dependencies wired.
pub fn cargo_to_json(
    _rustc_cfg: &Vec<CfgFlag>,
    _override_cfg: &CfgOverrides,
    _load_proc_macro: &ProcMacroLoader,
    _load: &FileLoader,
    cargo: &CargoWorkspace,
    _build_scripts: &WorkspaceBuildScripts,
    _sysroot: Option<&Sysroot>,
    _rustc: &Option<CargoWorkspace>,
) -> (r: ProjectJsonData)
    ensures
        r.sysroot_src is None,
        r.crates@.len() == cargo.packages@.len(),
        forall|i: int|
            0 <= i < cargo.packages@.len() ==> spec_sketch_crate_ok(
                cargo.packages@[i],
                #[trigger] r.crates@[i],
            ),
{
    let mut crates: Vec<CrateData> = Vec::new();
    let mut i: usize = 0;
    while i < cargo.packages.len()
        invariant
            0 <= i <= cargo.packages@.len(),
            crates@.len() == i,
            forall|x: int|
                0 <= x < i ==> spec_sketch_crate_ok(
                    cargo.packages@[x],
                    #[trigger] crates@[x],
                ),
        decreases cargo.packages@.len() - i,
    {
        let pkg = &cargo.packages[i];
        let new_crate = CrateData {
            display_name: Some(pkg.name.clone()),
            root_module: PathData { absolute: false, components: Vec::new() },
            edition: EditionData::from(pkg.edition),
            deps: Vec::new(),
            cfg: Vec::new(),
            target: None,
            env: Env::default(),
            proc_macro_dylib_path: None,
            is_workspace_member: None,
            source: None,
            is_proc_macro: false,
        };
        proof {
            assert(new_crate.root_module@.components =~= Seq::<Seq<char>>::empty());
            assert(spec_sketch_crate_ok(cargo.packages@[i as int], new_crate));
        }
        crates.push(new_crate);
        i = i + 1;
    }
    ProjectJsonData { sysroot_src: None, crates }
}

} // verus!
