//! Ordered environment-variable lists.
//!
//! A crate node carries the compile-time environment it was built with as
//! an ordered list of name/value pairs; setting an existing name replaces
//! its value in place, so the list order is the insertion order of the
//! names.

use crate::strings::str_eq;
use vstd::prelude::*;
use vstd::pervasive::VecAdditionalExecFns;

verus! {

/// The mathematical values of a sequence of name/value string pairs.
pub open spec fn env_views(s: Seq<(String, String)>) -> Seq<(Seq<char>, Seq<char>)> {
    s.map_values(|p: (String, String)| (p.0@, p.1@))
}

/// Setting a name: the first pair with that name has its value replaced;
/// a fresh name is appended at the end.
pub open spec fn spec_env_set(
    s: Seq<(Seq<char>, Seq<char>)>,
    k: Seq<char>,
    v: Seq<char>,
) -> Seq<(Seq<char>, Seq<char>)>
    decreases s.len(),
{
    if s.len() == 0 {
        seq![(k, v)]
    } else if s.first().0 == k {
        seq![(k, v)] + s.drop_first()
    } else {
        seq![s.first()] + spec_env_set(s.drop_first(), k, v)
    }
}

/// Replacing the pair at a position where the name first occurs is what
/// `spec_env_set` does.
pub proof fn lemma_env_set_found(s: Seq<(Seq<char>, Seq<char>)>, k: Seq<char>, v: Seq<char>, i: int)
    requires
        0 <= i < s.len(),
        s[i].0 == k,
        forall|j: int| 0 <= j < i ==> s[j].0 != k,
    ensures
        spec_env_set(s, k, v) == s.update(i, (k, v)),
    decreases i,
{
    if i == 0 {
        assert(spec_env_set(s, k, v) =~= s.update(0, (k, v)));
    } else {
        let rest = s.drop_first();
        assert(rest[i - 1].0 == k);
        assert(forall|j: int| 0 <= j < i - 1 ==> rest[j].0 != k);
        lemma_env_set_found(rest, k, v, i - 1);
        assert(spec_env_set(s, k, v) =~= s.update(i, (k, v)));
    }
}

/// A name that occurs nowhere is appended at the end.
pub proof fn lemma_env_set_missing(s: Seq<(Seq<char>, Seq<char>)>, k: Seq<char>, v: Seq<char>)
    requires
        forall|j: int| 0 <= j < s.len() ==> s[j].0 != k,
    ensures
        spec_env_set(s, k, v) == s.push((k, v)),
    decreases s.len(),
{
    if s.len() == 0 {
        assert(spec_env_set(s, k, v) =~= s.push((k, v)));
    } else {
        let rest = s.drop_first();
        assert(forall|j: int| 0 <= j < rest.len() ==> rest[j].0 != k);
        lemma_env_set_missing(rest, k, v);
        assert(spec_env_set(s, k, v) =~= s.push((k, v)));
    }
}

/// An ordered list of environment-variable name/value pairs.
#[derive(Debug)]
pub struct Env {
    pub entries: Vec<(String, String)>,
}

impl View for Env {
    type V = Seq<(Seq<char>, Seq<char>)>;

    open spec fn view(&self) -> Seq<(Seq<char>, Seq<char>)> {
        env_views(self.entries@)
    }
}

impl Default for Env {
    /// Returns the empty environment.
    fn default() -> (r: Self)
        ensures
            r@ == Seq::<(Seq<char>, Seq<char>)>::empty(),
    {
        let r = Env { entries: Vec::new() };
        proof {
            assert(r@ =~= Seq::<(Seq<char>, Seq<char>)>::empty());
        }
        r
    }
}

impl Clone for Env {
    fn clone(&self) -> (r: Self)
        ensures
            r@ == self@,
    {
        let entries = clone_string_pairs(&self.entries);
        Env { entries }
    }
}

/// Copies a list of string pairs, keeping every name and value.
pub fn clone_string_pairs(v: &Vec<(String, String)>) -> (r: Vec<(String, String)>)
    ensures
        env_views(r@) == env_views(v@),
{
    let mut out: Vec<(String, String)> = Vec::new();
    proof {
        assert(env_views(out@) =~= env_views(v@).take(0));
    }
    let mut i: usize = 0;
    while i < v.len()
        invariant
            0 <= i <= v@.len(),
            env_views(out@) == env_views(v@).take(i as int),
        decreases v@.len() - i,
    {
        let k = v[i].0.clone();
        let val = v[i].1.clone();
        let ghost prev = out@;
        out.push((k, val));
        proof {
            assert(env_views(prev) == env_views(v@).take(i as int));
            assert(env_views(prev).len() == prev.len());
            assert(env_views(v@).len() == v@.len());
            assert(prev.len() == i);
            assert(out@ == prev.push((k, val)));
            assert forall|j: int| 0 <= j < out@.len() implies env_views(out@)[j] == env_views(
                v@,
            ).take(i + 1)[j] by {
                if j < i {
                    assert(out@[j] == prev[j]);
                    assert(env_views(out@)[j] == env_views(prev)[j]);
                } else {
                    assert(out@[j] == (k, val));
                    assert(env_views(out@)[j] == (k@, val@));
                    assert(env_views(v@)[i as int] == (v@[i as int].0@, v@[i as int].1@));
                }
            }
            assert(env_views(out@) =~= env_views(v@).take(i + 1));
        }
        i = i + 1;
    }
    proof {
        assert(env_views(v@).take(v@.len() as int) =~= env_views(v@));
    }
    out
}

impl Env {
    /// Sets a variable: replaces the value of the first pair with this
    /// name, or appends the pair if the name is new.
    pub fn set(&mut self, k: String, v: String)
        ensures
            final(self)@ == spec_env_set(old(self)@, k@, v@),
    {
        let ghost s = self@;
        let mut i: usize = 0;
        while i < self.entries.len()
            invariant
                0 <= i <= self.entries@.len(),
                s == self@,
                s == old(self)@,
                forall|j: int| 0 <= j < i ==> s[j].0 != k@,
            decreases self.entries@.len() - i,
        {
            if str_eq(self.entries[i].0.as_str(), k.as_str()) {
                assert(s[i as int].0 == k@);
                let ghost kv = k@;
                let ghost vv = v@;
                self.entries.set(i, (k, v));
                proof {
                    assert(self@ =~= s.update(i as int, (kv, vv)));
                    lemma_env_set_found(s, kv, vv, i as int);
                    assert(self@ == spec_env_set(s, kv, vv));
                    assert(s == old(self)@);
                }
                return ;
            }
            i = i + 1;
        }
        self.entries.push((k, v));
        proof {
            assert(self@ =~= s.push((k@, v@)));
            lemma_env_set_missing(s, k@, v@);
        }
    }
}

} // verus!
