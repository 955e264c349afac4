//! The crate-graph snapshot: the self-contained result of one build.
//!
//! A snapshot holds an ordered list of crate nodes and an ordered list of
//! dependency edges over node indices. It carries only plain values, so it
//! can be serialized and later materialized without any in-memory
//! workspace handles. Node identities are indices into the node list,
//! assigned in creation order starting at zero.

use crate::cfg_data::{pairs_views, spec_pairs, CfgOptions};
use crate::edition::Edition;
use crate::env_data::{clone_string_pairs, env_views, Env};
use crate::strings::{str_eq, str_views};
use vstd::prelude::*;
use vstd::string::StringExecFns;

verus! {

/// One crate node of the snapshot.
#[derive(Debug)]
pub struct CrateRoot {
    pub file_id: u32,
    pub edition: String,
    pub display_name: Option<String>,
    pub cfg_options: Vec<(String, Vec<String>)>,
    pub potential_cfg_options: Vec<(String, Vec<String>)>,
    pub env: Vec<(String, String)>,
    pub proc_macro: Vec<String>,
}

/// Mathematical value of one crate node.
pub struct CrateRootView {
    pub file_id: u32,
    pub edition: Seq<char>,
    pub display_name: Option<Seq<char>>,
    pub cfg_options: Seq<(Seq<char>, Seq<Seq<char>>)>,
    pub potential_cfg_options: Seq<(Seq<char>, Seq<Seq<char>>)>,
    pub env: Seq<(Seq<char>, Seq<char>)>,
    pub proc_macro: Seq<Seq<char>>,
}

impl View for CrateRoot {
    type V = CrateRootView;

    open spec fn view(&self) -> CrateRootView {
        CrateRootView {
            file_id: self.file_id,
            edition: self.edition@,
            display_name: match self.display_name {
                Some(n) => Some(n@),
                None => None,
            },
            cfg_options: pairs_views(self.cfg_options@),
            potential_cfg_options: pairs_views(self.potential_cfg_options@),
            env: env_views(self.env@),
            proc_macro: str_views(self.proc_macro@),
        }
    }
}

/// One dependency edge: the crate at index `from` can use the crate at
/// index `to` under `name`.
#[derive(Debug)]
pub struct Dep {
    pub from: u32,
    pub name: String,
    pub to: u32,
}

/// Mathematical value of one dependency edge.
pub struct DepView {
    pub from: u32,
    pub name: Seq<char>,
    pub to: u32,
}

impl View for Dep {
    type V = DepView;

    open spec fn view(&self) -> DepView {
        DepView { from: self.from, name: self.name@, to: self.to }
    }
}

impl Clone for Dep {
    fn clone(&self) -> (r: Self)
        ensures
            r@ == self@,
    {
        Dep { from: self.from, name: self.name.clone(), to: self.to }
    }
}

/// The snapshot: ordered crate nodes and ordered dependency edges.
#[derive(Debug)]
pub struct CrateGraphJson {
    pub roots: Vec<CrateRoot>,
    pub deps: Vec<Dep>,
}

/// Mathematical value of a snapshot.
pub struct CrateGraphJsonView {
    pub roots: Seq<CrateRootView>,
    pub deps: Seq<DepView>,
}

/// The mathematical values of a sequence of crate nodes.
pub open spec fn root_views(s: Seq<CrateRoot>) -> Seq<CrateRootView> {
    s.map_values(|r: CrateRoot| r@)
}

/// The mathematical values of a sequence of edges.
pub open spec fn dep_views(s: Seq<Dep>) -> Seq<DepView> {
    s.map_values(|d: Dep| d@)
}

impl View for CrateGraphJson {
    type V = CrateGraphJsonView;

    open spec fn view(&self) -> CrateGraphJsonView {
        CrateGraphJsonView { roots: root_views(self.roots@), deps: dep_views(self.deps@) }
    }
}

/// Every edge endpoint names a node of the snapshot (indices are within
/// the node count).
pub open spec fn graph_wf(g: CrateGraphJsonView) -> bool {
    forall|i: int|
        0 <= i < g.deps.len() ==> (#[trigger] g.deps[i]).from < g.roots.len() && g.deps[i].to
            < g.roots.len()
}

impl Default for CrateGraphJson {
    /// Returns the empty snapshot.
    fn default() -> (r: Self)
        ensures
            r@.roots == Seq::<CrateRootView>::empty(),
            r@.deps == Seq::<DepView>::empty(),
    {
        let r = CrateGraphJson { roots: Vec::new(), deps: Vec::new() };
        proof {
            assert(r@.roots =~= Seq::<CrateRootView>::empty());
            assert(r@.deps =~= Seq::<DepView>::empty());
        }
        r
    }
}

impl CrateGraphJson {
    /// Appends one edge.
    pub fn add_dep(&mut self, dep: Dep)
        ensures
            final(self)@.roots == old(self)@.roots,
            final(self)@.deps == old(self)@.deps.push(dep@),
    {
        let ghost dv = dep@;
        self.deps.push(dep);
        proof {
            assert(self@.deps =~= old(self)@.deps.push(dv));
        }
    }

    /// Appends one crate node, converting the configuration sets, the
    /// environment and the display name to their serialized form. Returns
    /// the identity of the new node: its index, equal to the node count
    /// before the call. The node stores the macro-module paths; resolved
    /// handles are re-derived on load, not stored.
    pub fn add_crate_root(
        &mut self,
        file_id: u32,
        edition: Edition,
        display_name: Option<String>,
        cfg_options: CfgOptions,
        potential_cfg_options: CfgOptions,
        env: Env,
        proc_macro: Vec<String>,
    ) -> (id: u32)
        requires
            old(self).roots@.len() < u32::MAX as usize,
        ensures
            id == old(self)@.roots.len(),
            final(self)@.deps == old(self)@.deps,
            final(self)@.roots == old(self)@.roots.push(
                CrateRootView {
                    file_id,
                    edition: edition.spec_str(),
                    display_name: match display_name {
                        Some(n) => Some(n@),
                        None => None,
                    },
                    cfg_options: spec_pairs(cfg_options@),
                    potential_cfg_options: spec_pairs(potential_cfg_options@),
                    env: env@,
                    proc_macro: str_views(proc_macro@),
                },
            ),
    {
        let id = self.roots.len();
        let edition_name = String::from_str(edition.as_str());
        let cfg_pairs = cfg_options.to_pairs();
        let potential_pairs = potential_cfg_options.to_pairs();
        let env_entries = clone_string_pairs(&env.entries);
        let root = CrateRoot {
            file_id,
            edition: edition_name,
            display_name,
            cfg_options: cfg_pairs,
            potential_cfg_options: potential_pairs,
            env: env_entries,
            proc_macro,
        };
        let ghost rv = root@;
        self.roots.push(root);
        proof {
            assert(self@.roots =~= old(self)@.roots.push(rv));
            assert(self@.deps =~= old(self)@.deps);
        }
        id as u32
    }

    /// Whether some edge already leaves `from` under `name`.
    pub fn contains_dep(&self, from: u32, name: &str) -> (r: bool)
        ensures
            r == exists|i: int|
                0 <= i < self@.deps.len() && (#[trigger] self@.deps[i]).from == from
                    && self@.deps[i].name == name@,
    {
        let mut i: usize = 0;
        while i < self.deps.len()
            invariant
                0 <= i <= self.deps@.len(),
                forall|j: int|
                    0 <= j < i ==> !((#[trigger] self@.deps[j]).from == from && self@.deps[j].name
                        == name@),
            decreases self.deps@.len() - i,
        {
            if self.deps[i].from == from && str_eq(self.deps[i].name.as_str(), name) {
                assert(self@.deps[i as int].from == from && self@.deps[i as int].name == name@);
                return true;
            }
            i = i + 1;
        }
        false
    }
}

} // verus!
