//! Materializing a snapshot into a runtime crate graph.
//!
//! The runtime graph is rebuilt from the snapshot's plain serialized
//! values alone, so a snapshot that was serialized, stored and decoded
//! materializes exactly as the original would have. An unparsable edition
//! string is a recoverable condition: the node falls back to the most
//! recent known edition.

use crate::cfg_data::{CfgFlagView, CfgOptions};
use crate::edition::Edition;
use crate::env_data::{spec_env_set, Env};
use crate::graph_json::{CrateGraphJson, CrateGraphJsonView, CrateRootView};
use crate::strings::str_views;
use vstd::prelude::*;
use vstd::string::StrSliceExecFns;

verus! {

/// One dependency of a runtime crate node.
#[derive(Debug)]
pub struct Dependency {
    pub crate_id: u32,
    pub name: String,
}

/// Mathematical value of one runtime dependency.
pub struct DependencyView {
    pub crate_id: u32,
    pub name: Seq<char>,
}

impl View for Dependency {
    type V = DependencyView;

    open spec fn view(&self) -> DependencyView {
        DependencyView { crate_id: self.crate_id, name: self.name@ }
    }
}

/// One node of the runtime crate graph.
#[derive(Debug)]
pub struct CrateNode {
    pub file_id: u32,
    pub edition: Edition,
    pub display_name: Option<String>,
    pub cfg_options: CfgOptions,
    pub potential_cfg_options: CfgOptions,
    pub env: Env,
    pub dependencies: Vec<Dependency>,
}

/// Mathematical value of one runtime node.
pub struct CrateNodeView {
    pub file_id: u32,
    pub edition: Edition,
    pub display_name: Option<Seq<char>>,
    pub cfg_options: Seq<CfgFlagView>,
    pub potential_cfg_options: Seq<CfgFlagView>,
    pub env: Seq<(Seq<char>, Seq<char>)>,
    pub dependencies: Seq<DependencyView>,
}

impl View for CrateNode {
    type V = CrateNodeView;

    open spec fn view(&self) -> CrateNodeView {
        CrateNodeView {
            file_id: self.file_id,
            edition: self.edition,
            display_name: match self.display_name {
                Some(n) => Some(n@),
                None => None,
            },
            cfg_options: self.cfg_options@,
            potential_cfg_options: self.potential_cfg_options@,
            env: self.env@,
            dependencies: self.dependencies@.map_values(|d: Dependency| d@),
        }
    }
}

/// The runtime crate graph: ordered nodes, each carrying its own
/// dependencies.
#[derive(Debug)]
pub struct CrateGraph {
    pub crates: Vec<CrateNode>,
}

impl View for CrateGraph {
    type V = Seq<CrateNodeView>;

    open spec fn view(&self) -> Seq<CrateNodeView> {
        self.crates@.map_values(|n: CrateNode| n@)
    }
}

impl Default for CrateGraph {
    /// Returns the empty runtime graph.
    fn default() -> (r: Self)
        ensures
            r@ == Seq::<CrateNodeView>::empty(),
    {
        let r = CrateGraph { crates: Vec::new() };
        proof {
            assert(r@ =~= Seq::<CrateNodeView>::empty());
        }
        r
    }
}

impl CrateGraph {
    /// Appends one node with no dependencies and returns its identity:
    /// its index, equal to the node count before the call.
    pub fn add_crate_root(
        &mut self,
        file_id: u32,
        edition: Edition,
        display_name: Option<String>,
        cfg_options: CfgOptions,
        potential_cfg_options: CfgOptions,
        env: Env,
    ) -> (id: u32)
        requires
            old(self).crates@.len() < u32::MAX as usize,
        ensures
            id == old(self)@.len(),
            final(self)@ == old(self)@.push(
                CrateNodeView {
                    file_id,
                    edition,
                    display_name: match display_name {
                        Some(n) => Some(n@),
                        None => None,
                    },
                    cfg_options: cfg_options@,
                    potential_cfg_options: potential_cfg_options@,
                    env: env@,
                    dependencies: Seq::<DependencyView>::empty(),
                },
            ),
    {
        let id = self.crates.len();
        let node = CrateNode {
            file_id,
            edition,
            display_name,
            cfg_options,
            potential_cfg_options,
            env,
            dependencies: Vec::new(),
        };
        let ghost nv = node@;
        self.crates.push(node);
        proof {
            assert(nv.dependencies =~= Seq::<DependencyView>::empty());
            assert(self@ =~= old(self)@.push(nv));
        }
        id as u32
    }
}

/// The key/value flags one serialized pair contributes, in value order.
pub open spec fn spec_pair_flags(key: Seq<char>, values: Seq<Seq<char>>) -> Seq<CfgFlagView> {
    values.map_values(|v: Seq<char>| CfgFlagView::KeyValue(key, v))
}

/// The configuration set rebuilt from serialized pairs: the key/value
/// flags of every pair, inserted in order. A key with no values — a
/// serialized atom — contributes no flag.
pub open spec fn spec_parse_cfg_options(pairs: Seq<(Seq<char>, Seq<Seq<char>>)>) -> Seq<
    CfgFlagView,
>
    decreases pairs.len(),
{
    if pairs.len() == 0 {
        Seq::empty()
    } else {
        crate::cfg_data::spec_insert_all(
            spec_parse_cfg_options(pairs.drop_last()),
            spec_pair_flags(pairs.last().0, pairs.last().1),
        )
    }
}

/// Rebuilds a configuration set from its serialized key-to-values pairs.
pub fn parse_cfg_options(options: &Vec<(String, Vec<String>)>) -> (r: CfgOptions)
    ensures
        r@ == spec_parse_cfg_options(crate::cfg_data::pairs_views(options@)),
{
    let ghost pairs = crate::cfg_data::pairs_views(options@);
    let mut cfg_options = CfgOptions::default();
    let mut i: usize = 0;
    while i < options.len()
        invariant
            0 <= i <= options@.len(),
            pairs == crate::cfg_data::pairs_views(options@),
            cfg_options@ == spec_parse_cfg_options(pairs.take(i as int)),
        decreases options@.len() - i,
    {
        let ghost flags = spec_pair_flags(pairs[i as int].0, pairs[i as int].1);
        let key = &options[i].0;
        let values = &options[i].1;
        let mut j: usize = 0;
        while j < values.len()
            invariant
                0 <= i < options@.len(),
                0 <= j <= values@.len(),
                pairs == crate::cfg_data::pairs_views(options@),
                key@ == pairs[i as int].0,
                str_views(values@) == pairs[i as int].1,
                flags == spec_pair_flags(pairs[i as int].0, pairs[i as int].1),
                cfg_options@ == crate::cfg_data::spec_insert_all(
                    spec_parse_cfg_options(pairs.take(i as int)),
                    flags.take(j as int),
                ),
            decreases values@.len() - j,
        {
            let k = key.clone();
            let v = values[j].clone();
            cfg_options.insert_key_value(k, v);
            proof {
                assert(flags[j as int] == CfgFlagView::KeyValue(key@, values@[j as int]@));
                assert(flags.take(j + 1).drop_last() =~= flags.take(j as int));
                assert(flags.take(j + 1).last() == flags[j as int]);
            }
            j = j + 1;
        }
        proof {
            assert(flags.take(flags.len() as int) =~= flags);
            assert(pairs.take(i + 1).drop_last() =~= pairs.take(i as int));
            assert(pairs.take(i + 1).last() == pairs[i as int]);
        }
        i = i + 1;
    }
    proof {
        assert(pairs.take(pairs.len() as int) =~= pairs);
    }
    cfg_options
}

/// The environment rebuilt from serialized pairs, set in order.
pub open spec fn spec_env_from_pairs(kvs: Seq<(Seq<char>, Seq<char>)>) -> Seq<
    (Seq<char>, Seq<char>),
>
    decreases kvs.len(),
{
    if kvs.len() == 0 {
        Seq::empty()
    } else {
        spec_env_set(spec_env_from_pairs(kvs.drop_last()), kvs.last().0, kvs.last().1)
    }
}

/// The runtime node one serialized crate node materializes to: the
/// edition string parsed (falling back to the most recent edition), the
/// configuration sets rebuilt from their pairs, the environment rebuilt
/// in order, and no dependencies — the snapshot's edges are not carried
/// onto the nodes.
pub open spec fn spec_materialize_root(rv: CrateRootView) -> CrateNodeView {
    CrateNodeView {
        file_id: rv.file_id,
        edition: match Edition::spec_parse(rv.edition) {
            Some(e) => e,
            None => Edition::Edition2021,
        },
        display_name: rv.display_name,
        cfg_options: spec_parse_cfg_options(rv.cfg_options),
        potential_cfg_options: spec_parse_cfg_options(rv.potential_cfg_options),
        env: spec_env_from_pairs(rv.env),
        dependencies: Seq::empty(),
    }
}

/// The runtime graph a snapshot materializes to.
pub open spec fn spec_materialize(roots: Seq<CrateRootView>) -> Seq<CrateNodeView> {
    roots.map_values(|rv: CrateRootView| spec_materialize_root(rv))
}

impl CrateGraphJson {
    /// Materializes the snapshot into a runtime graph: one node per
    /// serialized crate node, in order, rebuilt from the plain values
    /// alone.
    pub fn to_crate_graph(&self) -> (r: CrateGraph)
        requires
            self.roots@.len() <= u32::MAX as usize,
        ensures
            r@ == spec_materialize(self@.roots),
    {
        let ghost roots = self@.roots;
        let mut crate_graph = CrateGraph::default();
        let mut i: usize = 0;
        while i < self.roots.len()
            invariant
                0 <= i <= self.roots@.len(),
                self.roots@.len() <= u32::MAX as usize,
                roots == self@.roots,
                crate_graph@ == spec_materialize(roots.take(i as int)),
            decreases self.roots@.len() - i,
        {
            let root = &self.roots[i];
            let file_id = root.file_id;
            let edition = match Edition::from_str(root.edition.as_str()) {
                Ok(e) => e,
                Err(_) => Edition::current(),
            };
            let display_name = match &root.display_name {
                Some(name) => Some(name.clone()),
                None => None,
            };
            let cfg_options = parse_cfg_options(&root.cfg_options);
            let potential_cfg_options = parse_cfg_options(&root.potential_cfg_options);
            let mut env = Env::default();
            let ghost kvs = crate::env_data::env_views(root.env@);
            let mut j: usize = 0;
            while j < root.env.len()
                invariant
                    0 <= j <= root.env@.len(),
                    kvs == crate::env_data::env_views(root.env@),
                    env@ == spec_env_from_pairs(kvs.take(j as int)),
                decreases root.env@.len() - j,
            {
                let k = root.env[j].0.clone();
                let v = root.env[j].1.clone();
                env.set(k, v);
                proof {
                    assert(kvs.take(j + 1).drop_last() =~= kvs.take(j as int));
                    assert(kvs.take(j + 1).last() == kvs[j as int]);
                }
                j = j + 1;
            }
            proof {
                assert(kvs.take(kvs.len() as int) =~= kvs);
            }
            let ghost pre = crate_graph@;
            proof {
                assert(crate_graph@.len() == crate_graph.crates@.len());
                assert(spec_materialize(roots.take(i as int)).len() == roots.take(
                    i as int,
                ).len());
                assert(crate_graph.crates@.len() < u32::MAX as usize);
            }
            crate_graph.add_crate_root(
                file_id,
                edition,
                display_name,
                cfg_options,
                potential_cfg_options,
                env,
            );
            proof {
                assert(roots[i as int] == self.roots@[i as int]@);
                assert(crate_graph@.last() == spec_materialize_root(roots[i as int]));
                assert(crate_graph@ =~= spec_materialize(roots.take(i + 1)));
            }
            i = i + 1;
        }
        proof {
            assert(roots.take(roots.len() as int) =~= roots);
        }
        crate_graph
    }
}

/// All edges of a runtime graph, gathered node by node.
pub open spec fn runtime_edges(nodes: Seq<CrateNodeView>) -> Seq<DependencyView>
    decreases nodes.len(),
{
    if nodes.len() == 0 {
        Seq::empty()
    } else {
        runtime_edges(nodes.drop_last()) + nodes.last().dependencies
    }
}

/// Round trip: materialization reads nothing but the snapshot's plain
/// serialized values, so a snapshot that was serialized and decoded —
/// yielding equal serialized crate nodes — materializes into a runtime
/// graph with the same crate count and the same edge multiset as
/// materializing the original snapshot directly.
pub proof fn lemma_materialize_round_trip(a: CrateGraphJsonView, b: CrateGraphJsonView)
    requires
        a.roots == b.roots,
    ensures
        spec_materialize(a.roots).len() == spec_materialize(b.roots).len(),
        runtime_edges(spec_materialize(a.roots)).to_multiset() == runtime_edges(
            spec_materialize(b.roots),
        ).to_multiset(),
{
}

} // verus!
