//! Builds a compilation graph — one node per buildable crate, one edge per
//! usable-name dependency — from a resolved cargo workspace description,
//! a standard-library (sysroot) description, build-script outputs, and an
//! optional secondary "private toolchain" workspace.
//!
//! The graph is produced as a self-contained, serializable snapshot
//! ([`CrateGraphJson`]) which can later be materialized into a runtime
//! graph independently of any in-memory workspace handles.

pub mod builder;
pub mod cargo_to_project;
pub mod cfg_data;
pub mod change;
pub mod crate_name;
pub mod edition;
pub mod env_data;
pub mod graph_json;
pub mod meta;
pub mod paths_data;
pub mod project_json;
pub mod runtime;
pub mod strings;
pub mod workspace;

pub use builder::{
    add_inter_package_deps, add_rustc_private_deps, add_target_crate_root, cargo_dep_names_valid,
    handle_rustc_crates, inject_cargo_env, sysroot_to_crate_graph, BuildError,
};
pub use cargo_to_project::cargo_to_json;
pub use cfg_data::{CfgDiff, CfgFlag, CfgOptions, CfgOverrides};
pub use change::{ChangeJson, SourceRoot, SourceRootJson};
pub use crate_name::{crate_name_ok, normalize_dashes};
pub use edition::{Edition, EditionData, ParseEditionError};
pub use env_data::Env;
pub use graph_json::{CrateGraphJson, CrateRoot, Dep};
pub use meta::{meta_to_json, MetaDep, MetaDepKind, MetaNode, MetaPackage, Metadata};
pub use paths_data::PathData;
pub use project_json::{Crate, CrateData, CrateSource, DepData, ProjectJson, ProjectJsonData};
pub use runtime::{CrateGraph, CrateNode, Dependency};
pub use workspace::{
    BuildScriptOutput, CargoWorkspace, DepKind, FileLoader, PackageData, PackageDependency,
    PackageMetadata, ProcMacroLoader, Sysroot, SysrootCrateData, TargetData, TargetKind,
    VersionData, WorkspaceBuildScripts,
};
