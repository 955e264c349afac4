//! Configuration-flag sets.
//!
//! A configuration set maps flag keys to the values they may take; a bare
//! atom is a key with no values. Each crate node carries two such sets: the
//! *active* set (flags actually in effect) and the *potential* set (active
//! flags plus every value any declared feature could introduce). Insertion
//! order is kept and duplicates are never stored, so a set's serialized
//! form is deterministic.

use crate::strings::{contains_string, str_eq, str_views, string_eq};
use vstd::prelude::*;

verus! {

/// One configuration flag: either a bare atom (a boolean flag) or a
/// key/value pair.
#[derive(Debug)]
pub enum CfgFlag {
    Atom(String),
    KeyValue { key: String, value: String },
}

/// Mathematical value of one configuration flag.
pub enum CfgFlagView {
    Atom(Seq<char>),
    KeyValue(Seq<char>, Seq<char>),
}

impl View for CfgFlag {
    type V = CfgFlagView;

    open spec fn view(&self) -> CfgFlagView {
        match self {
            CfgFlag::Atom(s) => CfgFlagView::Atom(s@),
            CfgFlag::KeyValue { key, value } => CfgFlagView::KeyValue(key@, value@),
        }
    }
}

/// The key under which a flag is grouped: an atom's own name, or the key
/// of a key/value pair.
pub open spec fn flag_key(fv: CfgFlagView) -> Seq<char> {
    match fv {
        CfgFlagView::Atom(s) => s,
        CfgFlagView::KeyValue(k, _) => k,
    }
}

/// The mathematical values of a sequence of flags.
pub open spec fn flag_views(s: Seq<CfgFlag>) -> Seq<CfgFlagView> {
    s.map_values(|f: CfgFlag| f@)
}

impl Clone for CfgFlag {
    fn clone(&self) -> (r: Self)
        ensures
            r@ == self@,
    {
        match self {
            CfgFlag::Atom(s) => CfgFlag::Atom(s.clone()),
            CfgFlag::KeyValue { key, value } => CfgFlag::KeyValue {
                key: key.clone(),
                value: value.clone(),
            },
        }
    }
}

/// Compares two flags by value.
pub fn flag_eq(a: &CfgFlag, b: &CfgFlag) -> (r: bool)
    ensures
        r == (a@ == b@),
{
    match (a, b) {
        (CfgFlag::Atom(x), CfgFlag::Atom(y)) => string_eq(x, y),
        (CfgFlag::KeyValue { key: ak, value: av }, CfgFlag::KeyValue { key: bk, value: bv }) => {
            string_eq(ak, bk) && string_eq(av, bv)
        },
        _ => false,
    }
}

/// No flag value occurs twice.
pub open spec fn distinct_flags(s: Seq<CfgFlagView>) -> bool {
    forall|i: int, j: int| 0 <= i < j < s.len() ==> s[i] != s[j]
}

/// An insertion-ordered, duplicate-free set of configuration flags.
#[derive(Debug)]
pub struct CfgOptions {
    pub flags: Vec<CfgFlag>,
}

impl View for CfgOptions {
    type V = Seq<CfgFlagView>;

    open spec fn view(&self) -> Seq<CfgFlagView> {
        flag_views(self.flags@)
    }
}

impl Default for CfgOptions {
    /// Returns the empty configuration set.
    fn default() -> (r: Self)
        ensures
            r@ == Seq::<CfgFlagView>::empty(),
            r.wf(),
    {
        let r = CfgOptions { flags: Vec::new() };
        proof {
            assert(r@ =~= Seq::<CfgFlagView>::empty());
        }
        r
    }
}

impl Clone for CfgOptions {
    fn clone(&self) -> (r: Self)
        ensures
            r@ == self@,
    {
        let flags = self.flags.clone();
        proof {
            assert(flag_views(flags@) =~= flag_views(self.flags@));
        }
        CfgOptions { flags }
    }
}

/// Inserting a flag into a set: a no-op if the value is already present,
/// else appended at the end.
pub open spec fn spec_insert(s: Seq<CfgFlagView>, fv: CfgFlagView) -> Seq<CfgFlagView> {
    if s.contains(fv) {
        s
    } else {
        s.push(fv)
    }
}

/// Inserting a sequence of flags in order.
pub open spec fn spec_insert_all(s: Seq<CfgFlagView>, fs: Seq<CfgFlagView>) -> Seq<CfgFlagView>
    decreases fs.len(),
{
    if fs.len() == 0 {
        s
    } else {
        spec_insert(spec_insert_all(s, fs.drop_last()), fs.last())
    }
}

/// Removing every occurrence of a flag value, keeping the order of the
/// rest.
pub open spec fn spec_remove(s: Seq<CfgFlagView>, fv: CfgFlagView) -> Seq<CfgFlagView>
    decreases s.len(),
{
    if s.len() == 0 {
        Seq::empty()
    } else {
        let prefix = spec_remove(s.drop_last(), fv);
        if s.last() == fv {
            prefix
        } else {
            prefix.push(s.last())
        }
    }
}

/// Removing a sequence of flag values in order.
pub open spec fn spec_remove_all(s: Seq<CfgFlagView>, fs: Seq<CfgFlagView>) -> Seq<CfgFlagView>
    decreases fs.len(),
{
    if fs.len() == 0 {
        s
    } else {
        spec_remove(spec_remove_all(s, fs.drop_last()), fs.last())
    }
}

impl CfgOptions {
    /// The set never stores the same flag value twice.
    pub open spec fn wf(&self) -> bool {
        distinct_flags(self@)
    }

    /// Whether the set holds the given flag value.
    pub fn contains_flag(&self, f: &CfgFlag) -> (r: bool)
        ensures
            r == self@.contains(f@),
    {
        let mut i: usize = 0;
        while i < self.flags.len()
            invariant
                0 <= i <= self.flags@.len(),
                forall|j: int| 0 <= j < i ==> self@[j] != f@,
            decreases self.flags@.len() - i,
        {
            if flag_eq(&self.flags[i], f) {
                assert(self@[i as int] == f@);
                return true;
            }
            i = i + 1;
        }
        assert(forall|j: int| 0 <= j < self@.len() ==> self@[j] != f@);
        false
    }

    /// Adds a flag unless an equal one is already present.
    pub fn insert(&mut self, f: CfgFlag)
        ensures
            final(self)@ == spec_insert(old(self)@, f@),
            old(self).wf() ==> final(self).wf(),
    {
        if !self.contains_flag(&f) {
            let ghost old_views = self@;
            let ghost fv = f@;
            self.flags.push(f);
            proof {
                assert(self@ =~= old_views.push(fv));
                if distinct_flags(old_views) {
                    assert forall|i: int, j: int| 0 <= i < j < self@.len() implies self@[i]
                        != self@[j] by {
                        if j < old_views.len() {
                        } else {
                            assert(self@[j] == fv);
                            assert(old_views[i] == self@[i]);
                            assert(!old_views.contains(fv));
                        }
                    }
                }
            }
        }
    }

    /// Adds a bare atom flag.
    pub fn insert_atom(&mut self, name: String)
        ensures
            final(self)@ == spec_insert(old(self)@, CfgFlagView::Atom(name@)),
            old(self).wf() ==> final(self).wf(),
    {
        self.insert(CfgFlag::Atom(name));
    }

    /// Adds a key/value flag.
    pub fn insert_key_value(&mut self, key: String, value: String)
        ensures
            final(self)@ == spec_insert(old(self)@, CfgFlagView::KeyValue(key@, value@)),
            old(self).wf() ==> final(self).wf(),
    {
        self.insert(CfgFlag::KeyValue { key, value });
    }

    /// Inserts every flag of the slice, in order.
    pub fn extend(&mut self, flags: &Vec<CfgFlag>)
        ensures
            final(self)@ == spec_insert_all(old(self)@, flag_views(flags@)),
            old(self).wf() ==> final(self).wf(),
    {
        let ghost fs = flag_views(flags@);
        let mut i: usize = 0;
        while i < flags.len()
            invariant
                0 <= i <= flags@.len(),
                fs == flag_views(flags@),
                self@ == spec_insert_all(old(self)@, fs.take(i as int)),
                old(self).wf() ==> self.wf(),
            decreases flags@.len() - i,
        {
            let f = flags[i].clone();
            proof {
                assert(f@ == fs[i as int]);
            }
            self.insert(f);
            proof {
                assert(fs.take(i + 1).drop_last() =~= fs.take(i as int));
                assert(fs.take(i + 1).last() == fs[i as int]);
            }
            i = i + 1;
        }
        proof {
            assert(fs.take(fs.len() as int) =~= fs);
        }
    }

    /// Removes every flag equal to the given one, keeping order.
    pub fn remove(&mut self, f: &CfgFlag)
        ensures
            final(self)@ == spec_remove(old(self)@, f@),
            old(self).wf() ==> final(self).wf(),
    {
        let ghost s = self@;
        let ghost fv = f@;
        let mut out: Vec<CfgFlag> = Vec::new();
        proof {
            assert(flag_views(out@) =~= spec_remove(s.take(0), fv));
        }
        let mut i: usize = 0;
        while i < self.flags.len()
            invariant
                0 <= i <= self.flags@.len(),
                s == flag_views(self.flags@),
                fv == f@,
                flag_views(out@) == spec_remove(s.take(i as int), fv),
            decreases self.flags@.len() - i,
        {
            if !flag_eq(&self.flags[i], f) {
                let g = self.flags[i].clone();
                out.push(g);
                proof {
                    assert(flag_views(out@) =~= spec_remove(s.take(i as int), fv).push(
                        s[i as int],
                    ));
                }
            }
            proof {
                assert(s.take(i + 1).drop_last() =~= s.take(i as int));
                assert(s.take(i + 1).last() == s[i as int]);
            }
            i = i + 1;
        }
        proof {
            assert(s.take(s.len() as int) =~= s);
        }
        self.flags = out;
        proof {
            if distinct_flags(s) {
                lemma_remove_distinct(s, fv);
            }
        }
    }
}

/// Whatever `spec_remove` keeps was in the original sequence.
pub proof fn lemma_remove_subset(s: Seq<CfgFlagView>, fv: CfgFlagView)
    ensures
        forall|x: CfgFlagView| #[trigger] spec_remove(s, fv).contains(x) ==> s.contains(x),
    decreases s.len(),
{
    if s.len() > 0 {
        lemma_remove_subset(s.drop_last(), fv);
        assert forall|x: CfgFlagView| #[trigger] spec_remove(s, fv).contains(x) implies s.contains(
            x,
        ) by {
            let r = spec_remove(s, fv);
            let prefix = spec_remove(s.drop_last(), fv);
            let k = choose|k: int| 0 <= k < r.len() && r[k] == x;
            if s.last() != fv && k == r.len() - 1 {
                assert(x == s.last());
                assert(s.contains(s.last()));
            } else {
                assert(prefix.contains(x));
                assert(s.drop_last().contains(x));
                let m = choose|m: int| 0 <= m < s.drop_last().len() && s.drop_last()[m] == x;
                assert(s[m] == x);
            }
        }
    }
}

/// Removal keeps distinctness.
pub proof fn lemma_remove_distinct(s: Seq<CfgFlagView>, fv: CfgFlagView)
    requires
        distinct_flags(s),
    ensures
        distinct_flags(spec_remove(s, fv)),
    decreases s.len(),
{
    if s.len() > 0 {
        assert(distinct_flags(s.drop_last()));
        lemma_remove_distinct(s.drop_last(), fv);
        lemma_remove_subset(s.drop_last(), fv);
        let r = spec_remove(s, fv);
        let prefix = spec_remove(s.drop_last(), fv);
        if s.last() != fv {
            assert forall|i: int, j: int| 0 <= i < j < r.len() implies r[i] != r[j] by {
                if j == r.len() - 1 {
                    assert(r[j] == s.last());
                    assert(prefix.contains(prefix[i]));
                    assert(s.drop_last().contains(prefix[i]));
                    let m = choose|m: int|
                        0 <= m < s.drop_last().len() && s.drop_last()[m] == prefix[i];
                    assert(s[m] == prefix[i]);
                    assert(s[s.len() - 1] == s.last());
                }
            }
        }
    }
}

/// The distinct flag keys of a sequence of flags, in order of first
/// occurrence.
pub open spec fn spec_keys(s: Seq<CfgFlagView>) -> Seq<Seq<char>>
    decreases s.len(),
{
    if s.len() == 0 {
        Seq::empty()
    } else {
        let prefix = spec_keys(s.drop_last());
        if prefix.contains(flag_key(s.last())) {
            prefix
        } else {
            prefix.push(flag_key(s.last()))
        }
    }
}

/// The values attached to a key, in insertion order. A bare atom carries
/// no value, so a key introduced only by an atom maps to no values.
pub open spec fn spec_values(s: Seq<CfgFlagView>, key: Seq<char>) -> Seq<Seq<char>>
    decreases s.len(),
{
    if s.len() == 0 {
        Seq::empty()
    } else {
        let prefix = spec_values(s.drop_last(), key);
        match s.last() {
            CfgFlagView::KeyValue(k, v) => if k == key {
                prefix.push(v)
            } else {
                prefix
            },
            CfgFlagView::Atom(_) => prefix,
        }
    }
}

/// The key-to-values projection of a flag set: one pair per distinct key.
pub open spec fn spec_pairs(s: Seq<CfgFlagView>) -> Seq<(Seq<char>, Seq<Seq<char>>)> {
    spec_keys(s).map_values(|k: Seq<char>| (k, spec_values(s, k)))
}

/// The mathematical values of serialized key/values pairs.
pub open spec fn pairs_views(s: Seq<(String, Vec<String>)>) -> Seq<(Seq<char>, Seq<Seq<char>>)> {
    s.map_values(|p: (String, Vec<String>)| (p.0@, str_views(p.1@)))
}

/// One serialized pair is covered: the potential projection has the same
/// key, with at least the same values.
pub open spec fn pair_covered(
    pot: Seq<(Seq<char>, Seq<Seq<char>>)>,
    p: (Seq<char>, Seq<Seq<char>>),
) -> bool {
    exists|j: int|
        0 <= j < pot.len() && (#[trigger] pot[j]).0 == p.0 && (forall|v: Seq<char>|
            #[trigger] p.1.contains(v) ==> pot[j].1.contains(v))
}

/// Key-wise containment of serialized configuration projections: every
/// key of `act` occurs in `pot`, with at least the values it has in
/// `act`.
pub open spec fn cfg_pairs_superset(
    pot: Seq<(Seq<char>, Seq<Seq<char>>)>,
    act: Seq<(Seq<char>, Seq<Seq<char>>)>,
) -> bool {
    forall|i: int| 0 <= i < act.len() ==> pair_covered(pot, #[trigger] act[i])
}

impl CfgOptions {
    /// Returns the distinct flag keys, in order of first occurrence.
    pub fn get_cfg_keys(&self) -> (r: Vec<String>)
        ensures
            str_views(r@) == spec_keys(self@),
    {
        let ghost s = self@;
        let mut out: Vec<String> = Vec::new();
        proof {
            assert(str_views(out@) =~= spec_keys(s.take(0)));
        }
        let mut i: usize = 0;
        while i < self.flags.len()
            invariant
                0 <= i <= self.flags@.len(),
                s == flag_views(self.flags@),
                str_views(out@) == spec_keys(s.take(i as int)),
            decreases self.flags@.len() - i,
        {
            let key: &String = match &self.flags[i] {
                CfgFlag::Atom(name) => name,
                CfgFlag::KeyValue { key, value: _ } => key,
            };
            proof {
                assert(key@ == flag_key(s[i as int]));
            }
            if !contains_string(&out, key.as_str()) {
                let k = key.clone();
                out.push(k);
                proof {
                    assert(str_views(out@) =~= spec_keys(s.take(i as int)).push(
                        flag_key(s[i as int]),
                    ));
                }
            }
            proof {
                assert(s.take(i + 1).drop_last() =~= s.take(i as int));
                assert(s.take(i + 1).last() == s[i as int]);
            }
            i = i + 1;
        }
        proof {
            assert(s.take(s.len() as int) =~= s);
        }
        out
    }

    /// Returns the values attached to a key, in insertion order.
    pub fn get_cfg_values(&self, key: &str) -> (r: Vec<String>)
        ensures
            str_views(r@) == spec_values(self@, key@),
    {
        let ghost s = self@;
        let mut out: Vec<String> = Vec::new();
        proof {
            assert(str_views(out@) =~= spec_values(s.take(0), key@));
        }
        let mut i: usize = 0;
        while i < self.flags.len()
            invariant
                0 <= i <= self.flags@.len(),
                s == flag_views(self.flags@),
                str_views(out@) == spec_values(s.take(i as int), key@),
            decreases self.flags@.len() - i,
        {
            match &self.flags[i] {
                CfgFlag::KeyValue { key: k, value: v } => {
                    if str_eq(k.as_str(), key) {
                        let value = v.clone();
                        out.push(value);
                        proof {
                            assert(str_views(out@) =~= spec_values(s.take(i as int), key@).push(
                                v@,
                            ));
                        }
                    }
                },
                CfgFlag::Atom(_) => {},
            }
            proof {
                assert(s.take(i + 1).drop_last() =~= s.take(i as int));
                assert(s.take(i + 1).last() == s[i as int]);
            }
            i = i + 1;
        }
        proof {
            assert(s.take(s.len() as int) =~= s);
        }
        out
    }

    /// Returns the key-to-values projection used in the serialized
    /// snapshot.
    pub fn to_pairs(&self) -> (r: Vec<(String, Vec<String>)>)
        ensures
            pairs_views(r@) == spec_pairs(self@),
    {
        let ghost s = self@;
        let keys = self.get_cfg_keys();
        let mut out: Vec<(String, Vec<String>)> = Vec::new();
        proof {
            assert(pairs_views(out@) =~= spec_pairs(s).take(0));
        }
        let mut i: usize = 0;
        while i < keys.len()
            invariant
                0 <= i <= keys@.len(),
                s == self@,
                str_views(keys@) == spec_keys(s),
                pairs_views(out@) == spec_pairs(s).take(i as int),
            decreases keys@.len() - i,
        {
            let values = self.get_cfg_values(keys[i].as_str());
            let k = keys[i].clone();
            let ghost prev = out@;
            out.push((k, values));
            proof {
                assert(spec_pairs(s).len() == spec_keys(s).len());
                assert(pairs_views(prev) == spec_pairs(s).take(i as int));
                assert(pairs_views(prev).len() == prev.len());
                assert(prev.len() == i);
                assert(out@ == prev.push((k, values)));
                assert(str_views(keys@)[i as int] == keys@[i as int]@);
                assert(keys@[i as int]@ == spec_keys(s)[i as int]);
                assert(spec_pairs(s)[i as int] == (
                    spec_keys(s)[i as int],
                    spec_values(s, spec_keys(s)[i as int]),
                ));
                assert(spec_pairs(s).len() == spec_keys(s).len());
                assert forall|j: int| 0 <= j < out@.len() implies pairs_views(out@)[j]
                    == spec_pairs(s).take(i + 1)[j] by {
                    if j < i {
                        assert(out@[j] == prev[j]);
                        assert(pairs_views(out@)[j] == pairs_views(prev)[j]);
                        assert(pairs_views(prev)[j] == spec_pairs(s).take(i as int)[j]);
                    } else {
                        assert(out@[j] == (k, values));
                        assert(pairs_views(out@)[j] == (k@, str_views(values@)));
                    }
                }
                assert(pairs_views(out@) =~= spec_pairs(s).take(i + 1));
            }
            i = i + 1;
        }
        proof {
            assert(spec_pairs(s).take(spec_pairs(s).len() as int) =~= spec_pairs(s));
        }
        out
    }
}

/// Every flag's key appears among the keys of the sequence.
pub proof fn lemma_keys_complete(s: Seq<CfgFlagView>, fv: CfgFlagView)
    requires
        s.contains(fv),
    ensures
        spec_keys(s).contains(flag_key(fv)),
    decreases s.len(),
{
    let prefix = spec_keys(s.drop_last());
    if s.last() == fv {
        if prefix.contains(flag_key(fv)) {
        } else {
            assert(spec_keys(s).last() == flag_key(fv));
        }
    } else {
        let k = choose|k: int| 0 <= k < s.len() && s[k] == fv;
        assert(s.drop_last()[k] == fv);
        lemma_keys_complete(s.drop_last(), fv);
        let m = choose|m: int| 0 <= m < prefix.len() && prefix[m] == flag_key(fv);
        if prefix.contains(flag_key(s.last())) {
            assert(spec_keys(s)[m] == flag_key(fv));
        } else {
            assert(spec_keys(s)[m] == flag_key(fv));
        }
    }
}

/// Every key of the sequence is some flag's key.
pub proof fn lemma_keys_sound(s: Seq<CfgFlagView>, k: Seq<char>)
    requires
        spec_keys(s).contains(k),
    ensures
        exists|fv: CfgFlagView| s.contains(fv) && flag_key(fv) == k,
    decreases s.len(),
{
    let prefix = spec_keys(s.drop_last());
    if prefix.contains(k) {
        lemma_keys_sound(s.drop_last(), k);
        let fv = choose|fv: CfgFlagView| s.drop_last().contains(fv) && flag_key(fv) == k;
        let m = choose|m: int| 0 <= m < s.drop_last().len() && s.drop_last()[m] == fv;
        assert(s[m] == fv);
        assert(s.contains(fv) && flag_key(fv) == k);
    } else {
        assert(k == flag_key(s.last()));
        assert(s.contains(s.last()));
    }
}

/// A value listed under a key comes from a key/value flag of the
/// sequence.
pub proof fn lemma_values_sound(s: Seq<CfgFlagView>, key: Seq<char>, v: Seq<char>)
    requires
        spec_values(s, key).contains(v),
    ensures
        s.contains(CfgFlagView::KeyValue(key, v)),
    decreases s.len(),
{
    let prefix = spec_values(s.drop_last(), key);
    if s.last() == CfgFlagView::KeyValue(key, v) && spec_values(s, key).last() == v
        && spec_values(s, key).len() == prefix.len() + 1 {
        assert(s.contains(s.last()));
    } else {
        if prefix.contains(v) {
            lemma_values_sound(s.drop_last(), key, v);
            let fv = CfgFlagView::KeyValue(key, v);
            let m = choose|m: int| 0 <= m < s.drop_last().len() && s.drop_last()[m] == fv;
            assert(s[m] == fv);
        } else {
            let n = choose|n: int|
                0 <= n < spec_values(s, key).len() && spec_values(s, key)[n] == v;
            match s.last() {
                CfgFlagView::KeyValue(k2, v2) => {
                    if k2 == key {
                        assert(n == prefix.len());
                        assert(v2 == v);
                        assert(s.contains(s.last()));
                    } else {
                        assert(prefix[n] == v);
                    }
                },
                CfgFlagView::Atom(_) => {
                    assert(prefix[n] == v);
                },
            }
        }
    }
}

/// Every key/value flag contributes its value under its key.
pub proof fn lemma_values_complete(s: Seq<CfgFlagView>, key: Seq<char>, v: Seq<char>)
    requires
        s.contains(CfgFlagView::KeyValue(key, v)),
    ensures
        spec_values(s, key).contains(v),
    decreases s.len(),
{
    let fv = CfgFlagView::KeyValue(key, v);
    let prefix = spec_values(s.drop_last(), key);
    if s.last() == fv {
        assert(spec_values(s, key).last() == v);
    } else {
        let k = choose|k: int| 0 <= k < s.len() && s[k] == fv;
        assert(s.drop_last()[k] == fv);
        lemma_values_complete(s.drop_last(), key, v);
        let m = choose|m: int| 0 <= m < prefix.len() && prefix[m] == v;
        assert(spec_values(s, key)[m] == v);
    }
}

/// Inserting flags never drops one: the result contains everything the
/// original contained.
pub proof fn lemma_insert_all_superset(s: Seq<CfgFlagView>, fs: Seq<CfgFlagView>)
    ensures
        forall|fv: CfgFlagView| s.contains(fv) ==> #[trigger] spec_insert_all(s, fs).contains(fv),
    decreases fs.len(),
{
    if fs.len() > 0 {
        lemma_insert_all_superset(s, fs.drop_last());
        let mid = spec_insert_all(s, fs.drop_last());
        assert forall|fv: CfgFlagView| s.contains(fv) implies #[trigger] spec_insert_all(
            s,
            fs,
        ).contains(fv) by {
            assert(mid.contains(fv));
            if !mid.contains(fs.last()) {
                let m = choose|m: int| 0 <= m < mid.len() && mid[m] == fv;
                assert(mid.push(fs.last())[m] == fv);
            }
        }
    }
}

/// If one flag set contains another, its serialized key-to-values
/// projection covers the other's key by key.
pub proof fn lemma_pairs_superset(a: Seq<CfgFlagView>, b: Seq<CfgFlagView>)
    requires
        forall|fv: CfgFlagView| #[trigger] a.contains(fv) ==> b.contains(fv),
    ensures
        cfg_pairs_superset(spec_pairs(b), spec_pairs(a)),
{
    assert forall|i: int| 0 <= i < spec_pairs(a).len() implies pair_covered(
        spec_pairs(b),
        spec_pairs(a)[i],
    ) by {
        let k = spec_keys(a)[i];
        assert(spec_pairs(a)[i] == (k, spec_values(a, k)));
        assert(spec_keys(a).contains(k));
        lemma_keys_sound(a, k);
        let fv = choose|fv: CfgFlagView| a.contains(fv) && flag_key(fv) == k;
        lemma_keys_complete(b, fv);
        let j = choose|j: int| 0 <= j < spec_keys(b).len() && spec_keys(b)[j] == k;
        assert(spec_pairs(b)[j] == (k, spec_values(b, k)));
        assert forall|v: Seq<char>| #[trigger] spec_values(a, k).contains(v) implies spec_values(
            b,
            k,
        ).contains(v) by {
            lemma_values_sound(a, k, v);
            assert(b.contains(CfgFlagView::KeyValue(k, v)));
            lemma_values_complete(b, k, v);
        }
        assert(0 <= j < spec_pairs(b).len() && spec_pairs(b)[j].0 == spec_pairs(a)[i].0 && (
        forall|v: Seq<char>|
            #[trigger] spec_pairs(a)[i].1.contains(v) ==> spec_pairs(b)[j].1.contains(v)));
    }
}

/// A per-package override: flags to add to and to drop from the shared
/// base configuration.
#[derive(Debug)]
pub struct CfgDiff {
    pub enable: Vec<CfgFlag>,
    pub disable: Vec<CfgFlag>,
}

impl Clone for CfgDiff {
    fn clone(&self) -> (r: Self)
        ensures
            flag_views(r.enable@) == flag_views(self.enable@),
            flag_views(r.disable@) == flag_views(self.disable@),
    {
        let enable = self.enable.clone();
        let disable = self.disable.clone();
        proof {
            assert(flag_views(enable@) =~= flag_views(self.enable@));
            assert(flag_views(disable@) =~= flag_views(self.disable@));
        }
        CfgDiff { enable, disable }
    }
}

impl CfgOptions {
    /// Applies an override: first inserts every enabled flag, then removes
    /// every disabled one.
    pub fn apply_diff(&mut self, diff: &CfgDiff)
        ensures
            final(self)@ == spec_remove_all(
                spec_insert_all(old(self)@, flag_views(diff.enable@)),
                flag_views(diff.disable@),
            ),
            old(self).wf() ==> final(self).wf(),
    {
        self.extend(&diff.enable);
        let ghost mid = self@;
        let ghost ds = flag_views(diff.disable@);
        let mut i: usize = 0;
        while i < diff.disable.len()
            invariant
                0 <= i <= diff.disable@.len(),
                ds == flag_views(diff.disable@),
                self@ == spec_remove_all(mid, ds.take(i as int)),
                distinct_flags(mid) ==> self.wf(),
            decreases diff.disable@.len() - i,
        {
            self.remove(&diff.disable[i]);
            proof {
                assert(ds.take(i + 1).drop_last() =~= ds.take(i as int));
                assert(ds.take(i + 1).last() == ds[i as int]);
            }
            i = i + 1;
        }
        proof {
            assert(ds.take(ds.len() as int) =~= ds);
        }
    }
}

} // verus!

verus! {

/// Per-package configuration overrides, keyed by package name; the first
/// entry with a name wins.
#[derive(Debug)]
pub struct CfgOverrides {
    pub entries: Vec<(String, CfgDiff)>,
}

impl Default for CfgOverrides {
    /// No package is overridden.
    fn default() -> (r: Self)
        ensures
            r.entries@.len() == 0,
    {
        CfgOverrides { entries: Vec::new() }
    }
}

impl CfgOverrides {
    /// The override table keyed by package-name values.
    pub open spec fn table(&self) -> Seq<(Seq<char>, (Seq<CfgFlagView>, Seq<CfgFlagView>))> {
        self.entries@.map_values(
            |p: (String, CfgDiff)| (p.0@, (flag_views(p.1.enable@), flag_views(p.1.disable@))),
        )
    }

    /// The override recorded for a package name, if any.
    pub open spec fn spec_get(&self, name: Seq<char>) -> Option<
        (Seq<CfgFlagView>, Seq<CfgFlagView>),
    > {
        crate::workspace::spec_lookup(self.table(), name)
    }

    /// Returns the override recorded for a package name.
    pub fn get(&self, name: &str) -> (r: Option<&CfgDiff>)
        ensures
            match r {
                Some(d) => self.spec_get(name@) == Some(
                    (flag_views(d.enable@), flag_views(d.disable@)),
                ),
                None => self.spec_get(name@) is None,
            },
    {
        let ghost t = self.table();
        let mut i: usize = 0;
        while i < self.entries.len()
            invariant
                0 <= i <= self.entries@.len(),
                t == self.table(),
                forall|j: int| 0 <= j < i ==> t[j].0 != name@,
            decreases self.entries@.len() - i,
        {
            if str_eq(self.entries[i].0.as_str(), name) {
                proof {
                    assert(t[i as int].0 == name@);
                    crate::workspace::lemma_lookup_found(t, name@, i as int);
                }
                return Some(&self.entries[i].1);
            }
            i = i + 1;
        }
        proof {
            assert(forall|j: int| 0 <= j < t.len() ==> t[j].0 != name@);
            crate::workspace::lemma_lookup_missing(t, name@);
        }
        None
    }
}

} // verus!

verus! {

/// Copies a vector of flags, keeping every value.
pub fn clone_flags(v: &Vec<CfgFlag>) -> (r: Vec<CfgFlag>)
    ensures
        flag_views(r@) == flag_views(v@),
{
    let r = v.clone();
    proof {
        assert forall|i: int| 0 <= i < r@.len() implies r@[i]@ == v@[i]@ by {
            assert(vstd::pervasive::cloned::<CfgFlag>(v@[i], r@[i]));
        }
        assert(flag_views(r@) =~= flag_views(v@));
    }
    r
}

} // verus!
