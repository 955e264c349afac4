//! The build-system-independent project description.
//!
//! A project description lists crates — each with its root module,
//! edition, dependencies (by position in the crate list), configuration
//! flags and environment — so a build system other than cargo can
//! describe its layout. [`ProjectJson::new`] anchors a freshly decoded
//! description at the folder that holds it: every path is joined onto
//! that base and normalized.

use crate::cfg_data::{clone_flags, flag_views, CfgFlag};
use crate::edition::{Edition, EditionData};
use crate::env_data::Env;
use crate::paths_data::{
    spec_join, spec_normalize, spec_parent, spec_starts_with, PathData, PathView,
};
use crate::runtime::Dependency;
use crate::strings::str_views;
use vstd::prelude::*;
use vstd::std_specs::convert::FromSpec;
use vstd::string::StringExecFns;

verus! {

/// Roots and crates that compose one project.
#[derive(Debug)]
pub struct ProjectJson {
    pub sysroot_src: Option<PathData>,
    pub project_root: PathData,
    pub crates: Vec<Crate>,
}

/// One crate of the project: its root module and what it depends on.
#[derive(Debug)]
pub struct Crate {
    pub display_name: Option<String>,
    pub root_module: PathData,
    pub edition: Edition,
    pub deps: Vec<Dependency>,
    pub cfg: Vec<CfgFlag>,
    pub target: Option<String>,
    pub env: Env,
    pub proc_macro_dylib_path: Option<PathData>,
    pub is_workspace_member: bool,
    pub source_dirs: Vec<PathData>,
    pub exclude_dirs: Vec<PathData>,
    pub is_proc_macro: bool,
}

/// A freshly decoded project description, before its paths are anchored.
#[derive(Debug)]
pub struct ProjectJsonData {
    pub sysroot_src: Option<PathData>,
    pub crates: Vec<CrateData>,
}

/// One crate of a freshly decoded description.
#[derive(Debug)]
pub struct CrateData {
    pub display_name: Option<String>,
    pub root_module: PathData,
    pub edition: EditionData,
    pub deps: Vec<DepData>,
    pub cfg: Vec<CfgFlag>,
    pub target: Option<String>,
    pub env: Env,
    pub proc_macro_dylib_path: Option<PathData>,
    pub is_workspace_member: Option<bool>,
    pub source: Option<CrateSource>,
    pub is_proc_macro: bool,
}

/// One decoded dependency: the target crate by position in the crate
/// list, and the name it is imported under.
#[derive(Debug)]
pub struct DepData {
    pub krate: usize,
    pub name: String,
}

/// The source folders of a decoded crate.
#[derive(Debug)]
pub struct CrateSource {
    pub source_dirs: Vec<PathData>,
    pub exclude_dirs: Vec<PathData>,
}

/// The relative path `..`, for the workspace-membership test.
pub open spec fn parent_dir_path() -> PathView {
    PathView { absolute: false, components: seq![".."@] }
}

/// Whether a decoded crate without an explicit membership flag counts as
/// a workspace member: its root module is relative and does not leave
/// the base folder, or is an absolute path under the base.
pub open spec fn spec_inferred_member(base: PathView, root_module: PathView) -> bool {
    !root_module.absolute && !spec_starts_with(root_module, parent_dir_path())
        || spec_starts_with(root_module, base)
}

/// How one decoded crate anchors at a base folder.
pub open spec fn spec_crate_from(base: PathView, cd: CrateData, c: Crate) -> bool {
    let joined = spec_normalize(spec_join(base, cd.root_module@));
    &&& (match (c.display_name, cd.display_name) {
        (Some(a), Some(b)) => a@ == b@,
        (None, None) => true,
        _ => false,
    })
    &&& c.root_module@ == joined
    &&& c.edition == Edition::from_spec(cd.edition)
    &&& c.deps@.len() == cd.deps@.len()
    &&& (forall|j: int|
        0 <= j < cd.deps@.len() ==> (#[trigger] c.deps@[j]).crate_id == cd.deps@[j].krate as u32
            && c.deps@[j].name@ == cd.deps@[j].name@)
    &&& flag_views(c.cfg@) == flag_views(cd.cfg@)
    &&& (match (c.target, cd.target) {
        (Some(a), Some(b)) => a@ == b@,
        (None, None) => true,
        _ => false,
    })
    &&& c.env@ == cd.env@
    &&& (match (c.proc_macro_dylib_path, cd.proc_macro_dylib_path) {
        (Some(a), Some(b)) => a@ == spec_join(base, b@),
        (None, None) => true,
        _ => false,
    })
    &&& c.is_workspace_member == (match cd.is_workspace_member {
        Some(b) => b,
        None => spec_inferred_member(base, cd.root_module@),
    })
    &&& (match cd.source {
        Some(src) => {
            &&& c.source_dirs@.len() == src.source_dirs@.len()
            &&& (forall|j: int|
                0 <= j < src.source_dirs@.len() ==> (#[trigger] c.source_dirs@[j])@ == spec_normalize(
                    spec_join(base, src.source_dirs@[j]@),
                ))
            &&& c.exclude_dirs@.len() == src.exclude_dirs@.len()
            &&& (forall|j: int|
                0 <= j < src.exclude_dirs@.len() ==> (#[trigger] c.exclude_dirs@[j])@ == spec_normalize(
                    spec_join(base, src.exclude_dirs@[j]@),
                ))
        },
        None => {
            &&& c.source_dirs@.len() == 1
            &&& c.source_dirs@[0]@ == spec_parent(joined)
            &&& c.exclude_dirs@.len() == 0
        },
    })
    &&& c.is_proc_macro == cd.is_proc_macro
}

/// Anchors a list of directory paths at the base folder.
fn absolutize(base: &PathData, dirs: &Vec<PathData>) -> (r: Vec<PathData>)
    ensures
        r@.len() == dirs@.len(),
        forall|j: int|
            0 <= j < dirs@.len() ==> (#[trigger] r@[j])@ == spec_normalize(
                spec_join(base@, dirs@[j]@),
            ),
{
    let mut out: Vec<PathData> = Vec::new();
    let mut i: usize = 0;
    while i < dirs.len()
        invariant
            0 <= i <= dirs@.len(),
            out@.len() == i,
            forall|j: int|
                0 <= j < i ==> (#[trigger] out@[j])@ == spec_normalize(
                    spec_join(base@, dirs@[j]@),
                ),
        decreases dirs@.len() - i,
    {
        let joined = base.join(&dirs[i]);
        let normalized = joined.normalize();
        out.push(normalized);
        i = i + 1;
    }
    out
}

impl ProjectJson {
    /// Anchors a decoded project description at the folder holding it:
    /// every path of the description is joined onto `base` (and, for
    /// root modules and source folders, normalized), and a crate without
    /// an explicit workspace-membership flag is classified by where its
    /// root module points.
    pub fn new(base: &PathData, data: ProjectJsonData) -> (r: ProjectJson)
        ensures
            (match (r.sysroot_src, data.sysroot_src) {
                (Some(a), Some(b)) => a@ == spec_join(base@, b@),
                (None, None) => true,
                _ => false,
            }),
            r.project_root@ == base@,
            r.crates@.len() == data.crates@.len(),
            forall|i: int|
                0 <= i < data.crates@.len() ==> spec_crate_from(
                    base@,
                    data.crates@[i],
                    #[trigger] r.crates@[i],
                ),
    {
        let sysroot_src = match &data.sysroot_src {
            Some(p) => Some(base.join(p)),
            None => None,
        };
        let mut crates: Vec<Crate> = Vec::new();
        let mut i: usize = 0;
        while i < data.crates.len()
            invariant
                0 <= i <= data.crates@.len(),
                crates@.len() == i,
                forall|x: int|
                    0 <= x < i ==> spec_crate_from(
                        base@,
                        data.crates@[x],
                        #[trigger] crates@[x],
                    ),
            decreases data.crates@.len() - i,
        {
            let cd = &data.crates[i];
            let is_workspace_member = match cd.is_workspace_member {
                Some(b) => b,
                None => {
                    let ghost pd = parent_dir_path();
                    let mut parent_dir_components: Vec<String> = Vec::new();
                    parent_dir_components.push(String::from_str(".."));
                    let parent_dir = PathData {
                        absolute: false,
                        components: parent_dir_components,
                    };
                    proof {
                        assert(parent_dir@.components =~= pd.components);
                    }
                    cd.root_module.is_relative() && !cd.root_module.starts_with(&parent_dir)
                        || cd.root_module.starts_with(base)
                },
            };
            let root_module = base.join(&cd.root_module).normalize();
            let (source_dirs, exclude_dirs): (Vec<PathData>, Vec<PathData>) = match &cd.source {
                Some(src) => (absolutize(base, &src.source_dirs), absolutize(
                    base,
                    &src.exclude_dirs,
                )),
                None => {
                    let mut only: Vec<PathData> = Vec::new();
                    only.push(root_module.parent());
                    (only, Vec::new())
                },
            };
            let mut deps: Vec<Dependency> = Vec::new();
            let mut j: usize = 0;
            while j < cd.deps.len()
                invariant
                    0 <= j <= cd.deps@.len(),
                    deps@.len() == j,
                    forall|y: int|
                        0 <= y < j ==> (#[trigger] deps@[y]).crate_id == cd.deps@[y].krate as u32
                            && deps@[y].name@ == cd.deps@[y].name@,
                decreases cd.deps@.len() - j,
            {
                let krate_id = #[verifier::truncate] (cd.deps[j].krate as u32);
                let name = cd.deps[j].name.clone();
                deps.push(Dependency { crate_id: krate_id, name });
                j = j + 1;
            }
            let display_name = match &cd.display_name {
                Some(n) => Some(n.clone()),
                None => None,
            };
            let target = match &cd.target {
                Some(t) => Some(t.clone()),
                None => None,
            };
            let proc_macro_dylib_path = match &cd.proc_macro_dylib_path {
                Some(p) => Some(base.join(p)),
                None => None,
            };
            let new_crate = Crate {
                display_name,
                root_module,
                edition: Edition::from(cd.edition),
                deps,
                cfg: clone_flags(&cd.cfg),
                target,
                env: cd.env.clone(),
                proc_macro_dylib_path,
                is_workspace_member,
                source_dirs,
                exclude_dirs,
                is_proc_macro: cd.is_proc_macro,
            };
            proof {
                assert(spec_crate_from(base@, data.crates@[i as int], new_crate));
            }
            crates.push(new_crate);
            i = i + 1;
        }
        ProjectJson { sysroot_src, project_root: base.clone(), crates }
    }

    /// Returns the number of crates in the project.
    pub fn n_crates(&self) -> (n: usize)
        ensures
            n == self.crates@.len(),
    {
        self.crates.len()
    }

    /// Returns the crates of the project; a crate's identity is its
    /// index in this list.
    pub fn crates(&self) -> (r: &Vec<Crate>)
        ensures
            r == &self.crates,
    {
        &self.crates
    }

    /// Returns the path to the project's root folder.
    pub fn path(&self) -> (r: &PathData)
        ensures
            r@ == self.project_root@,
    {
        &self.project_root
    }
}

} // verus!
