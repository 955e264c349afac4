//! Converting resolved package-manager metadata into a project
//! description.
//!
//! The metadata lists packages with opaque identities (kept here as
//! byte strings) and a resolve graph of nodes and dependencies. The
//! conversion sorts the packages by identity, maps each resolve node
//! onto its package by identity, and emits one dependency entry per
//! declared kind of each resolved dependency. Identities that match no
//! package are skipped — a version-skew condition, not an error.

use crate::edition::{spec_edition_data_of, Edition, EditionData};
use crate::workspace::DepKind;
use vstd::prelude::*;

verus! {

/// Byte-wise lexicographic order on identities, the order `sort_by` on
/// their textual form uses.
pub open spec fn lex_le(a: Seq<u8>, b: Seq<u8>) -> bool
    decreases a.len(),
{
    if a.len() == 0 {
        true
    } else if b.len() == 0 {
        false
    } else if a.first() < b.first() {
        true
    } else if a.first() > b.first() {
        false
    } else {
        lex_le(a.drop_first(), b.drop_first())
    }
}

/// Compares two identities byte-wise.
pub fn lex_le_bytes(a: &Vec<u8>, b: &Vec<u8>) -> (r: bool)
    ensures
        r == lex_le(a@, b@),
{
    let mut i: usize = 0;
    proof {
        assert(a@.skip(0) =~= a@);
        assert(b@.skip(0) =~= b@);
    }
    loop
        invariant
            0 <= i <= a@.len(),
            i <= b@.len(),
            forall|j: int| 0 <= j < i ==> a@[j] == b@[j],
            lex_le(a@, b@) == lex_le(a@.skip(i as int), b@.skip(i as int)),
        decreases a@.len() - i,
    {
        if i == a.len() {
            proof {
                assert(a@.skip(i as int).len() == 0);
            }
            return true;
        }
        if i == b.len() {
            proof {
                assert(b@.skip(i as int).len() == 0);
                assert(a@.skip(i as int).len() > 0);
            }
            return false;
        }
        let x = a[i];
        let y = b[i];
        proof {
            assert(a@.skip(i as int).first() == a@[i as int]);
            assert(b@.skip(i as int).first() == b@[i as int]);
            assert(a@.skip(i as int).drop_first() =~= a@.skip(i + 1));
            assert(b@.skip(i as int).drop_first() =~= b@.skip(i + 1));
        }
        if x < y {
            return true;
        }
        if x > y {
            return false;
        }
        i = i + 1;
    }
}

/// One package of the metadata: its opaque identity, name, and edition
/// string.
#[derive(Debug)]
pub struct MetaPackage {
    pub id: Vec<u8>,
    pub name: String,
    pub edition: String,
}

/// A dependency kind as the metadata reports it.
#[derive(Debug, Clone, Copy, PartialEq, Eq, Structural)]
pub enum MetaDepKind {
    Normal,
    Development,
    Build,
    Unknown,
}

/// One resolved dependency of a node: the target package's identity, the
/// name it is imported under, and the declared kinds.
#[derive(Debug)]
pub struct MetaDep {
    pub pkg: Vec<u8>,
    pub name: String,
    pub dep_kinds: Vec<MetaDepKind>,
}

/// One node of the resolve graph.
#[derive(Debug)]
pub struct MetaNode {
    pub id: Vec<u8>,
    pub deps: Vec<MetaDep>,
}

/// Resolved package-manager metadata: the packages, and the resolve
/// graph if the metadata was produced with dependencies.
#[derive(Debug)]
pub struct Metadata {
    pub packages: Vec<MetaPackage>,
    pub resolve: Option<Vec<MetaNode>>,
}

/// Inserting a package into a sorted run from the back, after any equal
/// identity — the position a stable sort gives it.
pub open spec fn spec_insert_pkg(s: Seq<MetaPackage>, x: MetaPackage) -> Seq<MetaPackage>
    decreases s.len(),
{
    if s.len() == 0 {
        seq![x]
    } else if lex_le(s.last().id@, x.id@) {
        s.push(x)
    } else {
        spec_insert_pkg(s.drop_last(), x).push(s.last())
    }
}

/// The packages stably sorted by identity.
pub open spec fn spec_sort_pkgs(s: Seq<MetaPackage>) -> Seq<MetaPackage>
    decreases s.len(),
{
    if s.len() == 0 {
        Seq::empty()
    } else {
        spec_insert_pkg(spec_sort_pkgs(s.drop_last()), s.last())
    }
}

/// Where the back-insertion lands: splitting at the first position from
/// the back whose element is not greater than the new one.
pub proof fn lemma_insert_pkg_at(s: Seq<MetaPackage>, x: MetaPackage, j: int)
    requires
        0 <= j <= s.len(),
        forall|k: int| j <= k < s.len() ==> !lex_le((#[trigger] s[k]).id@, x.id@),
        j > 0 ==> lex_le(s[j - 1].id@, x.id@),
    ensures
        spec_insert_pkg(s, x) == s.subrange(0, j) + seq![x] + s.subrange(j, s.len() as int),
    decreases s.len(),
{
    if s.len() == 0 {
        assert(spec_insert_pkg(s, x) =~= s.subrange(0, j) + seq![x] + s.subrange(
            j,
            s.len() as int,
        ));
    } else if lex_le(s.last().id@, x.id@) {
        assert(j == s.len());
        assert(spec_insert_pkg(s, x) =~= s.subrange(0, j) + seq![x] + s.subrange(
            j,
            s.len() as int,
        ));
    } else {
        assert(j <= s.len() - 1);
        assert(forall|k: int|
            j <= k < s.drop_last().len() ==> !lex_le((#[trigger] s.drop_last()[k]).id@, x.id@));
        if j > 0 {
            assert(s.drop_last()[j - 1] == s[j - 1]);
        }
        lemma_insert_pkg_at(s.drop_last(), x, j);
        assert(spec_insert_pkg(s, x) =~= s.subrange(0, j) + seq![x] + s.subrange(
            j,
            s.len() as int,
        ));
    }
}

/// Stably sorts the packages by identity.
pub fn sort_packages(pkgs: Vec<MetaPackage>) -> (r: Vec<MetaPackage>)
    ensures
        r@ == spec_sort_pkgs(pkgs@),
{
    let ghost s = pkgs@;
    let mut rest = pkgs;
    let mut out: Vec<MetaPackage> = Vec::new();
    proof {
        assert(out@ =~= spec_sort_pkgs(s.take(0)));
        assert(rest@ =~= s.skip(0));
    }
    let ghost mut gi: int = 0;
    while rest.len() > 0
        invariant
            0 <= gi <= s.len(),
            rest@ == s.skip(gi),
            out@ == spec_sort_pkgs(s.take(gi)),
        decreases rest@.len(),
    {
        let x = rest.remove(0);
        proof {
            assert(x == s[gi]);
            assert(rest@ =~= s.skip(gi + 1));
        }
        let ghost prev = out@;
        let mut j: usize = out.len();
        while j > 0 && !lex_le_bytes(&out[j - 1].id, &x.id)
            invariant
                0 <= j <= out@.len(),
                out@ == prev,
                forall|k: int| j <= k < out@.len() ==> !lex_le((#[trigger] out@[k]).id@, x.id@),
            decreases j,
        {
            j = j - 1;
        }
        proof {
            assert(j > 0 ==> lex_le(prev[j - 1].id@, x.id@));
            lemma_insert_pkg_at(prev, x, j as int);
        }
        out.insert(j, x);
        proof {
            assert(out@ =~= prev.subrange(0, j as int) + seq![x] + prev.subrange(
                j as int,
                prev.len() as int,
            ));
            assert(spec_insert_pkg(prev, x) == out@);
            assert(s.take(gi + 1).drop_last() =~= s.take(gi));
            assert(s.take(gi + 1).last() == s[gi]);
            assert(spec_sort_pkgs(s.take(gi + 1)) == spec_insert_pkg(prev, s[gi]));
        }
        proof {
            gi = gi + 1;
        }
    }
    proof {
        assert(s.skip(gi).len() == 0);
        assert(gi == s.len());
        assert(s.take(s.len() as int) =~= s);
    }
    out
}

} // verus!

verus! {

/// Both sorted runs keep exactly the elements put in.
pub proof fn lemma_insert_pkg_len(s: Seq<MetaPackage>, x: MetaPackage)
    ensures
        spec_insert_pkg(s, x).len() == s.len() + 1,
    decreases s.len(),
{
    if s.len() > 0 && !lex_le(s.last().id@, x.id@) {
        lemma_insert_pkg_len(s.drop_last(), x);
    }
}

/// Sorting keeps the package count.
pub proof fn lemma_sort_pkgs_len(s: Seq<MetaPackage>)
    ensures
        spec_sort_pkgs(s).len() == s.len(),
    decreases s.len(),
{
    if s.len() > 0 {
        lemma_sort_pkgs_len(s.drop_last());
        lemma_insert_pkg_len(spec_sort_pkgs(s.drop_last()), s.last());
    }
}

/// Compares two identities for equality.
pub fn bytes_eq(a: &Vec<u8>, b: &Vec<u8>) -> (r: bool)
    ensures
        r == (a@ == b@),
{
    if a.len() != b.len() {
        return false;
    }
    let mut i: usize = 0;
    while i < a.len()
        invariant
            0 <= i <= a@.len(),
            a@.len() == b@.len(),
            forall|j: int| 0 <= j < i ==> a@[j] == b@[j],
        decreases a@.len() - i,
    {
        if a[i] != b[i] {
            return false;
        }
        i = i + 1;
    }
    proof {
        assert(a@ =~= b@);
    }
    true
}

/// The first position whose package has the given identity.
pub open spec fn first_pkg_index(sorted: Seq<MetaPackage>, id: Seq<u8>) -> Option<int>
    decreases sorted.len(),
{
    if sorted.len() == 0 {
        None
    } else if sorted.first().id@ == id {
        Some(0)
    } else {
        match first_pkg_index(sorted.drop_first(), id) {
            Some(k) => Some(k + 1),
            None => None,
        }
    }
}

/// A match at the first position where the identity occurs is what
/// `first_pkg_index` returns.
pub proof fn lemma_first_idx_found(s: Seq<MetaPackage>, id: Seq<u8>, i: int)
    requires
        0 <= i < s.len(),
        s[i].id@ == id,
        forall|j: int| 0 <= j < i ==> (#[trigger] s[j]).id@ != id,
    ensures
        first_pkg_index(s, id) == Some(i),
    decreases i,
{
    if i > 0 {
        let rest = s.drop_first();
        assert(rest[i - 1].id@ == id);
        assert(forall|j: int| 0 <= j < i - 1 ==> (#[trigger] rest[j]).id@ != id);
        lemma_first_idx_found(rest, id, i - 1);
    }
}

/// An identity that occurs nowhere finds nothing.
pub proof fn lemma_first_idx_missing(s: Seq<MetaPackage>, id: Seq<u8>)
    requires
        forall|j: int| 0 <= j < s.len() ==> (#[trigger] s[j]).id@ != id,
    ensures
        first_pkg_index(s, id) is None,
    decreases s.len(),
{
    if s.len() > 0 {
        let rest = s.drop_first();
        assert(forall|j: int| 0 <= j < rest.len() ==> (#[trigger] rest[j]).id@ != id);
        lemma_first_idx_missing(rest, id);
    }
}

/// A found position is in range and carries the identity.
pub proof fn lemma_first_idx_bounds(s: Seq<MetaPackage>, id: Seq<u8>)
    requires
        first_pkg_index(s, id) is Some,
    ensures
        0 <= first_pkg_index(s, id)->0 < s.len(),
        s[first_pkg_index(s, id)->0].id@ == id,
    decreases s.len(),
{
    if s.len() > 0 && s.first().id@ != id {
        lemma_first_idx_bounds(s.drop_first(), id);
    }
}

/// Returns the first position whose package has the given identity.
pub fn find_pkg_index(sorted: &Vec<MetaPackage>, id: &Vec<u8>) -> (r: Option<usize>)
    ensures
        match r {
            Some(k) => first_pkg_index(sorted@, id@) == Some(k as int),
            None => first_pkg_index(sorted@, id@) is None,
        },
{
    let mut i: usize = 0;
    while i < sorted.len()
        invariant
            0 <= i <= sorted@.len(),
            forall|j: int| 0 <= j < i ==> (#[trigger] sorted@[j]).id@ != id@,
        decreases sorted@.len() - i,
    {
        if bytes_eq(&sorted[i].id, id) {
            proof {
                lemma_first_idx_found(sorted@, id@, i as int);
            }
            return Some(i);
        }
        i = i + 1;
    }
    proof {
        lemma_first_idx_missing(sorted@, id@);
    }
    None
}

/// The dependency kinds one resolved dependency declares, reduced to the
/// closed set in a fixed order; a dependency that declares none counts as
/// one normal dependency, and unknown kinds are dropped.
pub open spec fn spec_dep_kinds(list: Seq<MetaDepKind>) -> Seq<DepKind> {
    if list.len() == 0 {
        seq![DepKind::Normal]
    } else {
        (if list.contains(MetaDepKind::Normal) {
            seq![DepKind::Normal]
        } else {
            Seq::<DepKind>::empty()
        }) + (if list.contains(MetaDepKind::Development) {
            seq![DepKind::Dev]
        } else {
            Seq::<DepKind>::empty()
        }) + (if list.contains(MetaDepKind::Build) {
            seq![DepKind::Build]
        } else {
            Seq::<DepKind>::empty()
        })
    }
}

/// Whether a kind occurs in a declared list.
fn contains_kind(list: &Vec<MetaDepKind>, k: MetaDepKind) -> (r: bool)
    ensures
        r == list@.contains(k),
{
    let mut i: usize = 0;
    while i < list.len()
        invariant
            0 <= i <= list@.len(),
            forall|j: int| 0 <= j < i ==> list@[j] != k,
        decreases list@.len() - i,
    {
        if list[i] == k {
            assert(list@[i as int] == k);
            return true;
        }
        i = i + 1;
    }
    false
}

/// Reduces the declared kinds of one dependency to the closed set.
pub fn dep_kinds_of(list: &Vec<MetaDepKind>) -> (r: Vec<DepKind>)
    ensures
        r@ == spec_dep_kinds(list@),
{
    let mut out: Vec<DepKind> = Vec::new();
    if list.len() == 0 {
        out.push(DepKind::Normal);
        proof {
            assert(out@ =~= spec_dep_kinds(list@));
        }
        return out;
    }
    if contains_kind(list, MetaDepKind::Normal) {
        out.push(DepKind::Normal);
    }
    if contains_kind(list, MetaDepKind::Development) {
        out.push(DepKind::Dev);
    }
    if contains_kind(list, MetaDepKind::Build) {
        out.push(DepKind::Build);
    }
    proof {
        assert(out@ =~= spec_dep_kinds(list@));
    }
    out
}

/// Inserting a dependency into a run sorted by target identity, from the
/// back, after any equal identity.
pub open spec fn spec_insert_dep(s: Seq<MetaDep>, x: MetaDep) -> Seq<MetaDep>
    decreases s.len(),
{
    if s.len() == 0 {
        seq![x]
    } else if lex_le(s.last().pkg@, x.pkg@) {
        s.push(x)
    } else {
        spec_insert_dep(s.drop_last(), x).push(s.last())
    }
}

/// A node's dependencies stably sorted by target identity.
pub open spec fn spec_sort_deps(s: Seq<MetaDep>) -> Seq<MetaDep>
    decreases s.len(),
{
    if s.len() == 0 {
        Seq::empty()
    } else {
        spec_insert_dep(spec_sort_deps(s.drop_last()), s.last())
    }
}

/// Where the back-insertion of a dependency lands.
pub proof fn lemma_insert_dep_at(s: Seq<MetaDep>, x: MetaDep, j: int)
    requires
        0 <= j <= s.len(),
        forall|k: int| j <= k < s.len() ==> !lex_le((#[trigger] s[k]).pkg@, x.pkg@),
        j > 0 ==> lex_le(s[j - 1].pkg@, x.pkg@),
    ensures
        spec_insert_dep(s, x) == s.subrange(0, j) + seq![x] + s.subrange(j, s.len() as int),
    decreases s.len(),
{
    if s.len() == 0 {
        assert(spec_insert_dep(s, x) =~= s.subrange(0, j) + seq![x] + s.subrange(
            j,
            s.len() as int,
        ));
    } else if lex_le(s.last().pkg@, x.pkg@) {
        assert(j == s.len());
        assert(spec_insert_dep(s, x) =~= s.subrange(0, j) + seq![x] + s.subrange(
            j,
            s.len() as int,
        ));
    } else {
        assert(j <= s.len() - 1);
        assert(forall|k: int|
            j <= k < s.drop_last().len() ==> !lex_le((#[trigger] s.drop_last()[k]).pkg@, x.pkg@));
        if j > 0 {
            assert(s.drop_last()[j - 1] == s[j - 1]);
        }
        lemma_insert_dep_at(s.drop_last(), x, j);
        assert(spec_insert_dep(s, x) =~= s.subrange(0, j) + seq![x] + s.subrange(
            j,
            s.len() as int,
        ));
    }
}

/// Stably sorts a node's dependencies by target identity.
pub fn sort_node_deps(deps: Vec<MetaDep>) -> (r: Vec<MetaDep>)
    ensures
        r@ == spec_sort_deps(deps@),
{
    let ghost s = deps@;
    let mut rest = deps;
    let mut out: Vec<MetaDep> = Vec::new();
    proof {
        assert(out@ =~= spec_sort_deps(s.take(0)));
        assert(rest@ =~= s.skip(0));
    }
    let ghost mut gi: int = 0;
    while rest.len() > 0
        invariant
            0 <= gi <= s.len(),
            rest@ == s.skip(gi),
            out@ == spec_sort_deps(s.take(gi)),
        decreases rest@.len(),
    {
        let x = rest.remove(0);
        proof {
            assert(x == s[gi]);
            assert(rest@ =~= s.skip(gi + 1));
        }
        let ghost prev = out@;
        let mut j: usize = out.len();
        while j > 0 && !lex_le_bytes(&out[j - 1].pkg, &x.pkg)
            invariant
                0 <= j <= out@.len(),
                out@ == prev,
                forall|k: int| j <= k < out@.len() ==> !lex_le((#[trigger] out@[k]).pkg@, x.pkg@),
            decreases j,
        {
            j = j - 1;
        }
        proof {
            assert(j > 0 ==> lex_le(prev[j - 1].pkg@, x.pkg@));
            lemma_insert_dep_at(prev, x, j as int);
        }
        out.insert(j, x);
        proof {
            assert(out@ =~= prev.subrange(0, j as int) + seq![x] + prev.subrange(
                j as int,
                prev.len() as int,
            ));
            assert(spec_insert_dep(prev, x) == out@);
            assert(s.take(gi + 1).drop_last() =~= s.take(gi));
            assert(s.take(gi + 1).last() == s[gi]);
            assert(spec_sort_deps(s.take(gi + 1)) == spec_insert_dep(prev, s[gi]));
        }
        proof {
            gi = gi + 1;
        }
    }
    proof {
        assert(s.skip(gi).len() == 0);
        assert(gi == s.len());
        assert(s.take(s.len() as int) =~= s);
    }
    out
}

} // verus!

verus! {

/// The entries one resolved dependency contributes: its target package's
/// position and its name, once per declared kind — or nothing if the
/// target identity matches no package.
pub open spec fn spec_dep_entries(sorted: Seq<MetaPackage>, d: MetaDep) -> Seq<(int, Seq<char>)> {
    match first_pkg_index(sorted, d.pkg@) {
        Some(k) => Seq::new(spec_dep_kinds(d.dep_kinds@).len(), |q: int| (k, d.name@)),
        None => Seq::empty(),
    }
}

/// The entries the first `upto` dependencies of a node contribute.
pub open spec fn spec_node_deps(sorted: Seq<MetaPackage>, deps: Seq<MetaDep>, upto: int) -> Seq<
    (int, Seq<char>),
>
    decreases upto,
{
    if upto <= 0 {
        Seq::empty()
    } else {
        spec_node_deps(sorted, deps, upto - 1) + spec_dep_entries(sorted, deps[upto - 1])
    }
}

/// The dependency entries accumulated for the package at `idx` by the
/// first `upto` resolve nodes: each node whose identity maps to `idx`
/// contributes its dependencies, sorted by target identity.
pub open spec fn spec_crate_deps(
    sorted: Seq<MetaPackage>,
    nodes: Seq<MetaNode>,
    upto: int,
    idx: int,
) -> Seq<(int, Seq<char>)>
    decreases upto,
{
    if upto <= 0 {
        Seq::empty()
    } else {
        let prefix = spec_crate_deps(sorted, nodes, upto - 1, idx);
        let n = nodes[upto - 1];
        if first_pkg_index(sorted, n.id@) == Some(idx) {
            prefix + spec_node_deps(
                sorted,
                spec_sort_deps(n.deps@),
                spec_sort_deps(n.deps@).len() as int,
            )
        } else {
            prefix
        }
    }
}

/// The positions and names of a dependency list.
pub open spec fn dep_data_views(s: Seq<crate::project_json::DepData>) -> Seq<(int, Seq<char>)> {
    s.map_values(|d: crate::project_json::DepData| (d.krate as int, d.name@))
}

/// The crate one metadata package maps to: its name as display name, an
/// empty relative root module, its edition string parsed (any other
/// string falls back to the 2018 edition), the given dependency entries,
/// and everything else empty.
pub open spec fn spec_meta_crate_ok(
    pkg: MetaPackage,
    c: crate::project_json::CrateData,
    deps: Seq<(int, Seq<char>)>,
) -> bool {
    &&& (match c.display_name {
        Some(n) => n@ == pkg.name@,
        None => false,
    })
    &&& c.root_module@.absolute == false
    &&& c.root_module@.components.len() == 0
    &&& c.edition == (match Edition::spec_parse(pkg.edition@) {
        Some(e) => spec_edition_data_of(e),
        None => EditionData::Edition2018,
    })
    &&& dep_data_views(c.deps@) == deps
    &&& c.cfg@.len() == 0
    &&& c.target is None
    &&& c.env@.len() == 0
    &&& c.proc_macro_dylib_path is None
    &&& c.is_workspace_member is None
    &&& c.source is None
    &&& c.is_proc_macro == false
}

/// The names the conversion would validate are structurally valid: of
/// every node whose identity maps to a package, each dependency whose
/// target maps to a package and that declares at least one usable kind.
pub open spec fn meta_names_ok(sorted: Seq<MetaPackage>, nodes: Seq<MetaNode>) -> bool {
    forall|n: int, d: int|
        0 <= n < nodes.len() && 0 <= d < nodes[n].deps@.len() && first_pkg_index(
            sorted,
            nodes[n].id@,
        ) is Some && first_pkg_index(sorted, (#[trigger] nodes[n].deps@[d]).pkg@) is Some
            && spec_dep_kinds(nodes[n].deps@[d].dep_kinds@).len() > 0
            ==> crate::crate_name::is_valid_crate_name(nodes[n].deps@[d].name@)
}

/// Copies a dependency-entry list.
fn clone_dep_datas(v: &Vec<crate::project_json::DepData>) -> (r: Vec<
    crate::project_json::DepData,
>)
    ensures
        dep_data_views(r@) == dep_data_views(v@),
{
    let mut out: Vec<crate::project_json::DepData> = Vec::new();
    proof {
        assert(dep_data_views(out@) =~= dep_data_views(v@).take(0));
    }
    let mut i: usize = 0;
    while i < v.len()
        invariant
            0 <= i <= v@.len(),
            dep_data_views(out@) == dep_data_views(v@).take(i as int),
        decreases v@.len() - i,
    {
        let d = crate::project_json::DepData { krate: v[i].krate, name: v[i].name.clone() };
        let ghost prev = out@;
        out.push(d);
        proof {
            assert(dep_data_views(prev).len() == prev.len());
            assert(dep_data_views(v@).len() == v@.len());
            assert(out@ == prev.push(d));
            assert forall|j: int|
                0 <= j < out@.len() implies dep_data_views(out@)[j] == dep_data_views(v@).take(
                i + 1,
            )[j] by {
                if j < i {
                    assert(out@[j] == prev[j]);
                    assert(dep_data_views(out@)[j] == dep_data_views(prev)[j]);
                } else {
                    assert(out@[j] == d);
                }
            }
            assert(dep_data_views(out@) =~= dep_data_views(v@).take(i + 1));
        }
        i = i + 1;
    }
    proof {
        assert(dep_data_views(v@).take(v@.len() as int) =~= dep_data_views(v@));
    }
    out
}

/// Converts resolved package-manager metadata into a project
/// description: one crate per package, in identity order, each carrying
/// the dependency entries its resolve node declares — one entry per
/// declared kind. A node or dependency whose identity matches no package
/// is skipped.
pub fn meta_to_json(meta: Metadata) -> (r: crate::project_json::ProjectJsonData)
    requires
        meta.resolve is Some,
        meta_names_ok(spec_sort_pkgs(meta.packages@), meta.resolve->0@),
    ensures
        r.sysroot_src is None,
        r.crates@.len() == meta.packages@.len(),
        forall|i: int|
            0 <= i < r.crates@.len() ==> spec_meta_crate_ok(
                spec_sort_pkgs(meta.packages@)[i],
                #[trigger] r.crates@[i],
                spec_crate_deps(
                    spec_sort_pkgs(meta.packages@),
                    meta.resolve->0@,
                    meta.resolve->0@.len() as int,
                    i,
                ),
            ),
{
    let Metadata { packages, resolve } = meta;
    let ghost packs = packages@;
    let nodes: Vec<MetaNode> = match resolve {
        Some(n) => n,
        None => {
            proof {
                assert(false);
            }
            Vec::new()
        },
    };
    let ghost nodesv = nodes@;
    let sorted = sort_packages(packages);
    let ghost sortedv = spec_sort_pkgs(packs);
    proof {
        lemma_sort_pkgs_len(packs);
    }

    // Dependency entries per crate, accumulated node by node.
    let mut deps_acc: Vec<Vec<crate::project_json::DepData>> = Vec::new();
    let mut i0: usize = 0;
    while i0 < sorted.len()
        invariant
            0 <= i0 <= sorted@.len(),
            deps_acc@.len() == i0,
            forall|x: int| 0 <= x < i0 ==> (#[trigger] deps_acc@[x])@.len() == 0,
        decreases sorted@.len() - i0,
    {
        deps_acc.push(Vec::new());
        i0 = i0 + 1;
    }
    proof {
        assert forall|x: int|
            0 <= x < deps_acc@.len() implies dep_data_views((#[trigger] deps_acc@[x])@)
            =~= spec_crate_deps(sortedv, nodesv, 0, x) by {
            assert(deps_acc@[x]@ =~= Seq::<crate::project_json::DepData>::empty());
        }
    }

    let mut nrest = nodes;
    let ghost mut gn: int = 0;
    proof {
        assert(nrest@ =~= nodesv.skip(0));
    }
    while nrest.len() > 0
        invariant
            0 <= gn <= nodesv.len(),
            nrest@ == nodesv.skip(gn),
            sorted@ == sortedv,
            deps_acc@.len() == sortedv.len(),
            forall|x: int|
                0 <= x < deps_acc@.len() ==> dep_data_views((#[trigger] deps_acc@[x])@)
                    == spec_crate_deps(sortedv, nodesv, gn, x),
        decreases nrest@.len(),
    {
        let node = nrest.remove(0);
        proof {
            assert(node == nodesv[gn]);
            assert(nrest@ =~= nodesv.skip(gn + 1));
        }
        let MetaNode { id: node_id, deps: node_deps } = node;
        let ghost ndeps = node_deps@;
        match find_pkg_index(&sorted, &node_id) {
            Some(source) => {
                proof {
                    lemma_first_idx_bounds(sortedv, node_id@);
                }
                let sorted_deps = sort_node_deps(node_deps);
                let ghost sd = spec_sort_deps(ndeps);
                let mut acc = clone_dep_datas(&deps_acc[source]);
                proof {
                    assert(spec_node_deps(sortedv, sd, 0) =~= Seq::<(int, Seq<char>)>::empty());
                    assert(dep_data_views(acc@) =~= spec_crate_deps(sortedv, nodesv, gn, source as int)
                        + spec_node_deps(sortedv, sd, 0));
                }
                let mut d: usize = 0;
                while d < sorted_deps.len()
                    invariant
                        0 <= d <= sd.len(),
                        sorted@ == sortedv,
                        sorted_deps@ == sd,
                        dep_data_views(acc@) == spec_crate_deps(sortedv, nodesv, gn, source as int)
                            + spec_node_deps(sortedv, sd, d as int),
                    decreases sd.len() - d,
                {
                    let dep = &sorted_deps[d];
                    let ghost entries = spec_dep_entries(sortedv, sd[d as int]);
                    match find_pkg_index(&sorted, &dep.pkg) {
                        Some(k) => {
                            let kinds = dep_kinds_of(&dep.dep_kinds);
                            proof {
                                assert(entries =~= Seq::new(
                                    spec_dep_kinds(sd[d as int].dep_kinds@).len(),
                                    |q: int| (k as int, sd[d as int].name@),
                                ));
                            }
                            let mut q: usize = 0;
                            while q < kinds.len()
                                invariant
                                    0 <= q <= kinds@.len(),
                                    kinds@.len() == entries.len(),
                                    forall|z: int|
                                        0 <= z < entries.len() ==> entries[z] == (
                                        k as int,
                                        sd[d as int].name@,
                                    ),
                                    dep.pkg@ == sd[d as int].pkg@,
                                    dep.name@ == sd[d as int].name@,
                                    dep_data_views(acc@) == spec_crate_deps(
                                        sortedv,
                                        nodesv,
                                        gn,
                                        source as int,
                                    ) + spec_node_deps(sortedv, sd, d as int) + entries.take(
                                        q as int,
                                    ),
                                decreases kinds@.len() - q,
                            {
                                let entry = crate::project_json::DepData {
                                    krate: k,
                                    name: dep.name.clone(),
                                };
                                let ghost prevacc = acc@;
                                acc.push(entry);
                                proof {
                                    assert(dep_data_views(prevacc).len() == prevacc.len());
                                    assert(acc@ == prevacc.push(entry));
                                    assert forall|z: int|
                                        0 <= z < acc@.len() implies dep_data_views(acc@)[z] == (
                                    spec_crate_deps(sortedv, nodesv, gn, source as int)
                                        + spec_node_deps(sortedv, sd, d as int) + entries.take(
                                        q + 1,
                                    ))[z] by {
                                        if z < prevacc.len() {
                                            assert(acc@[z] == prevacc[z]);
                                            assert(dep_data_views(acc@)[z] == dep_data_views(
                                                prevacc,
                                            )[z]);
                                        } else {
                                            assert(acc@[z] == entry);
                                        }
                                    }
                                    assert(dep_data_views(acc@) =~= spec_crate_deps(
                                        sortedv,
                                        nodesv,
                                        gn,
                                        source as int,
                                    ) + spec_node_deps(sortedv, sd, d as int) + entries.take(
                                        q + 1,
                                    ));
                                }
                                q = q + 1;
                            }
                            proof {
                                assert(entries.take(entries.len() as int) =~= entries);
                            }
                        },
                        None => {
                            proof {
                                assert(entries =~= Seq::<(int, Seq<char>)>::empty());
                            }
                        },
                    }
                    proof {
                        assert(dep_data_views(acc@) =~= spec_crate_deps(
                            sortedv,
                            nodesv,
                            gn,
                            source as int,
                        ) + spec_node_deps(sortedv, sd, d + 1));
                    }
                    d = d + 1;
                }
                let ghost old_acc_table = deps_acc@;
                deps_acc.set(source, acc);
                proof {
                    assert forall|x: int|
                        0 <= x < deps_acc@.len() implies dep_data_views(
                        (#[trigger] deps_acc@[x])@,
                    ) == spec_crate_deps(sortedv, nodesv, gn + 1, x) by {
                        if x == source {
                            assert(spec_crate_deps(sortedv, nodesv, gn + 1, x) == spec_crate_deps(
                                sortedv,
                                nodesv,
                                gn,
                                x,
                            ) + spec_node_deps(sortedv, sd, sd.len() as int));
                        } else {
                            assert(deps_acc@[x] == old_acc_table[x]);
                            assert(first_pkg_index(sortedv, nodesv[gn].id@) != Some(x));
                        }
                    }
                }
            },
            None => {
                proof {
                    assert forall|x: int|
                        0 <= x < deps_acc@.len() implies dep_data_views(
                        (#[trigger] deps_acc@[x])@,
                    ) == spec_crate_deps(sortedv, nodesv, gn + 1, x) by {
                        assert(first_pkg_index(sortedv, nodesv[gn].id@) is None);
                    }
                }
            },
        }
        proof {
            gn = gn + 1;
        }
    }
    proof {
        assert(nodesv.skip(gn).len() == 0);
        assert(gn == nodesv.len());
    }

    // One crate per package, in identity order, with its entries.
    let mut crates: Vec<crate::project_json::CrateData> = Vec::new();
    let mut srest = sorted;
    let mut drest = deps_acc;
    let ghost mut gc: int = 0;
    proof {
        assert(srest@ =~= sortedv.skip(0));
    }
    while srest.len() > 0
        invariant
            0 <= gc <= sortedv.len(),
            srest@ == sortedv.skip(gc),
            drest@.len() == sortedv.len() - gc,
            forall|x: int|
                0 <= x < drest@.len() ==> dep_data_views((#[trigger] drest@[x])@)
                    == spec_crate_deps(sortedv, nodesv, nodesv.len() as int, x + gc),
            crates@.len() == gc,
            forall|x: int|
                0 <= x < gc ==> spec_meta_crate_ok(
                    sortedv[x],
                    #[trigger] crates@[x],
                    spec_crate_deps(sortedv, nodesv, nodesv.len() as int, x),
                ),
        decreases srest@.len(),
    {
        let pkg = srest.remove(0);
        proof {
            assert(pkg == sortedv[gc]);
            assert(srest@ =~= sortedv.skip(gc + 1));
        }
        let dv = drest.remove(0);
        let ghost old_drest = drest@;
        let edition = match EditionData::from_str(pkg.edition.as_str()) {
            Ok(e) => e,
            Err(_) => EditionData::Edition2018,
        };
        let new_crate = crate::project_json::CrateData {
            display_name: Some(pkg.name),
            root_module: crate::paths_data::PathData { absolute: false, components: Vec::new() },
            edition,
            deps: dv,
            cfg: Vec::new(),
            target: None,
            env: crate::env_data::Env::default(),
            proc_macro_dylib_path: None,
            is_workspace_member: None,
            source: None,
            is_proc_macro: false,
        };
        proof {
            assert(new_crate.root_module@.components =~= Seq::<Seq<char>>::empty());
            assert(new_crate.cfg@.len() == 0);
            assert(spec_meta_crate_ok(
                sortedv[gc],
                new_crate,
                spec_crate_deps(sortedv, nodesv, nodesv.len() as int, gc),
            ));
            assert forall|x: int|
                0 <= x < drest@.len() implies dep_data_views((#[trigger] drest@[x])@)
                == spec_crate_deps(sortedv, nodesv, nodesv.len() as int, x + gc + 1) by {
                assert(drest@[x] == old_drest[x]);
            }
        }
        crates.push(new_crate);
        proof {
            gc = gc + 1;
        }
    }
    proof {
        assert(sortedv.skip(gc).len() == 0);
        assert(gc == sortedv.len());
    }
    crate::project_json::ProjectJsonData { sysroot_src: None, crates }
}

} // verus!
