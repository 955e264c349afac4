//! The resolved workspace description the builder consumes: packages with
//! their targets, declared dependencies and features; the sysroot
//! description; build-script outputs; and the two injected collaborators
//! (file resolver, macro loader) as finite lookup tables.
//!
//! Identities are plain indices: a package is an index into the package
//! list, a target an index into the target list. A well-formed workspace
//! keeps every such index in range.

use crate::cfg_data::CfgFlag;
use crate::edition::Edition;
use crate::strings::str_eq;
use vstd::prelude::*;

verus! {

/// The kind of one buildable artifact of a package.
#[derive(Debug, Clone, Copy, PartialEq, Eq, Structural)]
pub enum TargetKind {
    Bin,
    Lib,
    Example,
    Test,
    Bench,
    BuildScript,
    Other,
}

/// The kind of one declared dependency.
#[derive(Debug, Clone, Copy, PartialEq, Eq, Structural)]
pub enum DepKind {
    Normal,
    Dev,
    Build,
}

/// One declared dependency of a package: the target package, the name the
/// dependency is imported under, and its kind.
#[derive(Debug)]
pub struct PackageDependency {
    pub pkg: usize,
    pub name: String,
    pub kind: DepKind,
}

/// One buildable artifact of a package.
#[derive(Debug)]
pub struct TargetData {
    pub name: String,
    pub root: String,
    pub kind: TargetKind,
}

/// The rendered components of a package version.
#[derive(Debug)]
pub struct VersionData {
    pub full: String,
    pub major: String,
    pub minor: String,
    pub patch: String,
    pub pre: String,
}

/// Package metadata the builder reads: the opt-in flag for the private
/// toolchain.
#[derive(Debug, Clone, Copy, PartialEq, Eq, Structural)]
pub struct PackageMetadata {
    pub rustc_private: bool,
}

/// One resolved package of the workspace.
#[derive(Debug)]
pub struct PackageData {
    pub name: String,
    pub version: VersionData,
    pub manifest_dir: String,
    pub edition: Edition,
    pub targets: Vec<usize>,
    pub dependencies: Vec<PackageDependency>,
    pub features: Vec<String>,
    pub active_features: Vec<String>,
    pub metadata: PackageMetadata,
}

/// A resolved cargo workspace: ordered packages and the targets they
/// point into.
#[derive(Debug)]
pub struct CargoWorkspace {
    pub packages: Vec<PackageData>,
    pub targets: Vec<TargetData>,
}

impl CargoWorkspace {
    /// Every target index of a package and every dependency's package
    /// index is in range.
    pub open spec fn wf(&self) -> bool {
        &&& forall|p: int, t: int|
            0 <= p < self.packages@.len() && 0 <= t < self.packages@[p].targets@.len()
                ==> #[trigger] self.packages@[p].targets@[t] < self.targets@.len()
        &&& forall|p: int, d: int|
            0 <= p < self.packages@.len() && 0 <= d < self.packages@[p].dependencies@.len()
                ==> (#[trigger] self.packages@[p].dependencies@[d]).pkg < self.packages@.len()
    }
}

/// One crate of the standard-library distribution.
#[derive(Debug)]
pub struct SysrootCrateData {
    pub name: String,
    pub root: String,
    pub deps: Vec<usize>,
}

/// The standard-library distribution: its crates, the subset every
/// workspace crate depends on, and an optional macro-support crate.
#[derive(Debug)]
pub struct Sysroot {
    pub crates: Vec<SysrootCrateData>,
    pub public_deps: Vec<(String, usize)>,
    pub proc_macro: Option<usize>,
}

impl Sysroot {
    /// Every internal dependency, public-dependency entry and the
    /// macro-support marker points at a sysroot crate.
    pub open spec fn wf(&self) -> bool {
        &&& forall|c: int, d: int|
            0 <= c < self.crates@.len() && 0 <= d < self.crates@[c].deps@.len()
                ==> #[trigger] self.crates@[c].deps@[d] < self.crates@.len()
        &&& forall|p: int|
            0 <= p < self.public_deps@.len() ==> (#[trigger] self.public_deps@[p]).1
                < self.crates@.len()
        &&& (self.proc_macro matches Some(i) ==> i < self.crates@.len())
    }
}

/// What a package's build script produced: extra configuration flags,
/// extra environment variables, and optionally the path of a compiled
/// macro-support module.
#[derive(Debug)]
pub struct BuildScriptOutput {
    pub cfgs: Vec<CfgFlag>,
    pub envs: Vec<(String, String)>,
    pub proc_macro_dylib_path: Option<String>,
}

/// Build-script outputs for the whole workspace, one optional entry per
/// package, in package order.
#[derive(Debug)]
pub struct WorkspaceBuildScripts {
    pub outputs: Vec<Option<BuildScriptOutput>>,
}

impl Default for WorkspaceBuildScripts {
    /// No build script has produced anything.
    fn default() -> (r: Self)
        ensures
            r.outputs@.len() == 0,
    {
        WorkspaceBuildScripts { outputs: Vec::new() }
    }
}

impl WorkspaceBuildScripts {
    /// The output recorded for a package, if any; packages past the end
    /// of the list have none.
    pub open spec fn spec_get(&self, pkg: int) -> Option<BuildScriptOutput> {
        if 0 <= pkg < self.outputs@.len() {
            self.outputs@[pkg]
        } else {
            None
        }
    }

    /// Returns the build-script output recorded for a package.
    pub fn get(&self, pkg: usize) -> (r: Option<&BuildScriptOutput>)
        ensures
            match r {
                Some(o) => self.spec_get(pkg as int) == Some(*o),
                None => self.spec_get(pkg as int) is None,
            },
    {
        if pkg < self.outputs.len() {
            self.outputs[pkg].as_ref()
        } else {
            None
        }
    }
}

/// First-match lookup in a path-keyed table.
pub open spec fn spec_lookup<T>(s: Seq<(Seq<char>, T)>, path: Seq<char>) -> Option<T>
    decreases s.len(),
{
    if s.len() == 0 {
        None
    } else if s.first().0 == path {
        Some(s.first().1)
    } else {
        spec_lookup(s.drop_first(), path)
    }
}

/// A match at the first position where the path occurs is what
/// `spec_lookup` returns.
pub proof fn lemma_lookup_found<T>(s: Seq<(Seq<char>, T)>, path: Seq<char>, i: int)
    requires
        0 <= i < s.len(),
        s[i].0 == path,
        forall|j: int| 0 <= j < i ==> s[j].0 != path,
    ensures
        spec_lookup(s, path) == Some(s[i].1),
    decreases i,
{
    if i > 0 {
        let rest = s.drop_first();
        assert(rest[i - 1].0 == path);
        assert(forall|j: int| 0 <= j < i - 1 ==> rest[j].0 != path);
        lemma_lookup_found(rest, path, i - 1);
    }
}

/// A path that occurs nowhere finds nothing.
pub proof fn lemma_lookup_missing<T>(s: Seq<(Seq<char>, T)>, path: Seq<char>)
    requires
        forall|j: int| 0 <= j < s.len() ==> s[j].0 != path,
    ensures
        spec_lookup(s, path) is None,
    decreases s.len(),
{
    if s.len() > 0 {
        let rest = s.drop_first();
        assert(forall|j: int| 0 <= j < rest.len() ==> rest[j].0 != path);
        lemma_lookup_missing(rest, path);
    }
}

/// The injected file resolver as a finite table: source path to the
/// stable file identity the loader gave it; a path that is absent is not
/// present on disk.
#[derive(Debug)]
pub struct FileLoader {
    pub entries: Vec<(String, u32)>,
}

impl FileLoader {
    /// The table keyed by path values.
    pub open spec fn table(&self) -> Seq<(Seq<char>, u32)> {
        self.entries@.map_values(|p: (String, u32)| (p.0@, p.1))
    }

    /// What the resolver answers for a path.
    pub open spec fn spec_load(&self, path: Seq<char>) -> Option<u32> {
        spec_lookup(self.table(), path)
    }

    /// Resolves a path to its stable file identity, or `None` if the
    /// file is not present.
    pub fn load(&self, path: &str) -> (r: Option<u32>)
        ensures
            r == self.spec_load(path@),
    {
        let ghost t = self.table();
        let mut i: usize = 0;
        while i < self.entries.len()
            invariant
                0 <= i <= self.entries@.len(),
                t == self.table(),
                forall|j: int| 0 <= j < i ==> t[j].0 != path@,
            decreases self.entries@.len() - i,
        {
            if str_eq(self.entries[i].0.as_str(), path) {
                proof {
                    assert(t[i as int].0 == path@);
                    lemma_lookup_found(t, path@, i as int);
                }
                return Some(self.entries[i].1);
            }
            i = i + 1;
        }
        proof {
            assert(forall|j: int| 0 <= j < t.len() ==> t[j].0 != path@);
            lemma_lookup_missing(t, path@);
        }
        None
    }
}

/// The injected macro loader as a finite table: path of a compiled
/// macro-support module to the ordered handles loading it yields. A path
/// that is absent loads no handles, mirroring a loader that fails softly.
#[derive(Debug)]
pub struct ProcMacroLoader {
    pub entries: Vec<(String, Vec<String>)>,
}

impl ProcMacroLoader {
    /// The table keyed by path values.
    pub open spec fn table(&self) -> Seq<(Seq<char>, Seq<Seq<char>>)> {
        self.entries@.map_values(
            |p: (String, Vec<String>)| (p.0@, crate::strings::str_views(p.1@)),
        )
    }

    /// What loading a path yields: the recorded handles, or none.
    pub open spec fn spec_load(&self, path: Seq<char>) -> Seq<Seq<char>> {
        match spec_lookup(self.table(), path) {
            Some(hs) => hs,
            None => Seq::empty(),
        }
    }

    /// Loads the macro handles recorded for a path; an unknown path
    /// yields the empty list.
    pub fn load(&self, path: &str) -> (r: Vec<String>)
        ensures
            crate::strings::str_views(r@) == self.spec_load(path@),
    {
        let ghost t = self.table();
        let mut i: usize = 0;
        while i < self.entries.len()
            invariant
                0 <= i <= self.entries@.len(),
                t == self.table(),
                forall|j: int| 0 <= j < i ==> t[j].0 != path@,
            decreases self.entries@.len() - i,
        {
            if str_eq(self.entries[i].0.as_str(), path) {
                proof {
                    assert(t[i as int].0 == path@);
                    lemma_lookup_found(t, path@, i as int);
                }
                let r = crate::strings::clone_strings(&self.entries[i].1);
                return r;
            }
            i = i + 1;
        }
        proof {
            assert(forall|j: int| 0 <= j < t.len() ==> t[j].0 != path@);
            lemma_lookup_missing(t, path@);
        }
        let r: Vec<String> = Vec::new();
        proof {
            assert(crate::strings::str_views(r@) =~= Seq::<Seq<char>>::empty());
        }
        r
    }
}

} // verus!
