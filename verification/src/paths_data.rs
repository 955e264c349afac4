//! File-system paths as plain data.
//!
//! A path is a flag for absoluteness plus its textual components in
//! order; the special components `.` and `..` are kept as ordinary
//! strings, and normalization interprets them. This is all the path
//! structure the project description needs: joining, normalizing,
//! taking a parent, and prefix tests.

use crate::strings::{clone_strings, str_eq, str_views};
use vstd::prelude::*;
use vstd::string::StrSliceExecFns;

verus! {

/// A file-system path as plain data.
#[derive(Debug)]
pub struct PathData {
    pub absolute: bool,
    pub components: Vec<String>,
}

/// Mathematical value of a path.
pub struct PathView {
    pub absolute: bool,
    pub components: Seq<Seq<char>>,
}

impl View for PathData {
    type V = PathView;

    open spec fn view(&self) -> PathView {
        PathView { absolute: self.absolute, components: str_views(self.components@) }
    }
}

impl Clone for PathData {
    fn clone(&self) -> (r: Self)
        ensures
            r@ == self@,
    {
        let components = clone_strings(&self.components);
        PathData { absolute: self.absolute, components }
    }
}

/// Joining: an absolute right side replaces the left side entirely, a
/// relative one is appended to it.
pub open spec fn spec_join(base: PathView, other: PathView) -> PathView {
    if other.absolute {
        other
    } else {
        PathView { absolute: base.absolute, components: base.components + other.components }
    }
}

/// Normalizing: `.` components are dropped, `..` removes the component
/// before it (or nothing at the start), other components stay in order.
pub open spec fn spec_normalize_components(s: Seq<Seq<char>>) -> Seq<Seq<char>>
    decreases s.len(),
{
    if s.len() == 0 {
        Seq::empty()
    } else {
        let prefix = spec_normalize_components(s.drop_last());
        if s.last() == "."@ {
            prefix
        } else if s.last() == ".."@ {
            if prefix.len() > 0 {
                prefix.drop_last()
            } else {
                prefix
            }
        } else {
            prefix.push(s.last())
        }
    }
}

/// Normalizing a path normalizes its components.
pub open spec fn spec_normalize(p: PathView) -> PathView {
    PathView { absolute: p.absolute, components: spec_normalize_components(p.components) }
}

/// The parent of a path: the path without its last component; a path
/// with no components is its own parent.
pub open spec fn spec_parent(p: PathView) -> PathView {
    if p.components.len() > 0 {
        PathView { absolute: p.absolute, components: p.components.drop_last() }
    } else {
        p
    }
}

/// Whether `p` starts with `prefix`: same absoluteness and a component
/// prefix.
pub open spec fn spec_starts_with(p: PathView, prefix: PathView) -> bool {
    p.absolute == prefix.absolute && prefix.components.is_prefix_of(p.components)
}

impl PathData {
    /// Whether the path is relative.
    pub fn is_relative(&self) -> (r: bool)
        ensures
            r == !self@.absolute,
    {
        !self.absolute
    }

    /// Joins another path onto this one.
    pub fn join(&self, other: &PathData) -> (r: PathData)
        ensures
            r@ == spec_join(self@, other@),
    {
        if other.absolute {
            other.clone()
        } else {
            let mut components = clone_strings(&self.components);
            let mut i: usize = 0;
            while i < other.components.len()
                invariant
                    0 <= i <= other.components@.len(),
                    str_views(components@) == self@.components + str_views(
                        other.components@,
                    ).take(i as int),
                decreases other.components@.len() - i,
            {
                let c = other.components[i].clone();
                let ghost prev = components@;
                components.push(c);
                proof {
                    assert(str_views(prev).len() == prev.len());
                    assert(components@ == prev.push(c));
                    assert forall|j: int|
                        0 <= j < components@.len() implies str_views(components@)[j] == (
                    self@.components + str_views(other.components@).take(i + 1))[j] by {
                        if j < prev.len() {
                            assert(components@[j] == prev[j]);
                            assert(str_views(components@)[j] == str_views(prev)[j]);
                        } else {
                            assert(components@[j] == c);
                            assert(str_views(components@)[j] == c@);
                            assert(c@ == str_views(other.components@)[i as int]);
                        }
                    }
                    assert(str_views(components@) =~= self@.components + str_views(
                        other.components@,
                    ).take(i + 1));
                }
                i = i + 1;
            }
            proof {
                assert(str_views(other.components@).take(
                    str_views(other.components@).len() as int,
                ) =~= str_views(other.components@));
            }
            PathData { absolute: self.absolute, components }
        }
    }

    /// Normalizes the path, resolving `.` and `..` components.
    pub fn normalize(&self) -> (r: PathData)
        ensures
            r@ == spec_normalize(self@),
    {
        let ghost s = self@.components;
        let mut components: Vec<String> = Vec::new();
        proof {
            assert(str_views(components@) =~= spec_normalize_components(s.take(0)));
        }
        let mut i: usize = 0;
        while i < self.components.len()
            invariant
                0 <= i <= self.components@.len(),
                s == self@.components,
                str_views(components@) == spec_normalize_components(s.take(i as int)),
            decreases self.components@.len() - i,
        {
            let c = &self.components[i];
            if str_eq(c.as_str(), ".") {
            } else if str_eq(c.as_str(), "..") {
                if components.len() > 0 {
                    components.pop();
                    proof {
                        assert(str_views(components@) =~= spec_normalize_components(
                            s.take(i as int),
                        ).drop_last());
                    }
                }
            } else {
                let cc = c.clone();
                components.push(cc);
                proof {
                    assert(str_views(components@) =~= spec_normalize_components(
                        s.take(i as int),
                    ).push(s[i as int]));
                }
            }
            proof {
                assert(s.take(i + 1).drop_last() =~= s.take(i as int));
                assert(s.take(i + 1).last() == s[i as int]);
            }
            i = i + 1;
        }
        proof {
            assert(s.take(s.len() as int) =~= s);
        }
        PathData { absolute: self.absolute, components }
    }

    /// Returns the path without its last component; a path with no
    /// components is returned unchanged.
    pub fn parent(&self) -> (r: PathData)
        ensures
            r@ == spec_parent(self@),
    {
        let mut components = clone_strings(&self.components);
        if components.len() > 0 {
            components.pop();
            proof {
                assert(str_views(components@) =~= self@.components.drop_last());
            }
        }
        PathData { absolute: self.absolute, components }
    }

    /// Whether this path starts with the given prefix path.
    pub fn starts_with(&self, prefix: &PathData) -> (r: bool)
        ensures
            r == spec_starts_with(self@, prefix@),
    {
        if self.absolute != prefix.absolute {
            return false;
        }
        if prefix.components.len() > self.components.len() {
            proof {
                assert(!prefix@.components.is_prefix_of(self@.components));
            }
            return false;
        }
        let mut i: usize = 0;
        while i < prefix.components.len()
            invariant
                0 <= i <= prefix.components@.len(),
                prefix.components@.len() <= self.components@.len(),
                forall|j: int| 0 <= j < i ==> prefix@.components[j] == self@.components[j],
            decreases prefix.components@.len() - i,
        {
            if !str_eq(prefix.components[i].as_str(), self.components[i].as_str()) {
                proof {
                    assert(prefix@.components[i as int] != self@.components[i as int]);
                    assert(!prefix@.components.is_prefix_of(self@.components));
                }
                return false;
            }
            i = i + 1;
        }
        proof {
            assert(prefix@.components =~= self@.components.subrange(
                0,
                prefix@.components.len() as int,
            ));
        }
        true
    }
}

} // verus!
