//! Crate-name validity and dash normalization.
//!
//! A structurally valid crate name contains no dash: dashes are legal in
//! package names but not in the identifiers crates are imported under.
//! Package names are turned into identifiers by replacing each dash with
//! an underscore.

use vstd::prelude::*;
use vstd::string::{StrSliceExecFns, StringExecFns};

verus! {

/// A structurally valid crate name: no dash anywhere.
pub open spec fn is_valid_crate_name(s: Seq<char>) -> bool {
    forall|i: int| 0 <= i < s.len() ==> s[i] != '-'
}

/// Dash normalization: every dash becomes an underscore.
pub open spec fn spec_normalize_dashes(s: Seq<char>) -> Seq<char> {
    s.map_values(|c: char| if c == '-' { '_' } else { c })
}

/// Normalizing always yields a structurally valid crate name.
pub proof fn lemma_normalize_valid(s: Seq<char>)
    ensures
        is_valid_crate_name(spec_normalize_dashes(s)),
{
    assert forall|i: int| 0 <= i < spec_normalize_dashes(s).len() implies spec_normalize_dashes(
        s,
    )[i] != '-' by {
        assert(spec_normalize_dashes(s)[i] == if s[i] == '-' {
            '_'
        } else {
            s[i]
        });
    }
}

/// Whether a name is structurally valid (contains no dash).
pub fn crate_name_ok(name: &str) -> (r: bool)
    ensures
        r == is_valid_crate_name(name@),
{
    let len = name.unicode_len();
    let mut i: usize = 0;
    while i < len
        invariant
            0 <= i <= len,
            len == name@.len(),
            forall|j: int| 0 <= j < i ==> name@[j] != '-',
        decreases len - i,
    {
        if name.get_char(i) == '-' {
            return false;
        }
        i = i + 1;
    }
    true
}

/// Replaces every dash of a name with an underscore, yielding a
/// structurally valid crate name.
pub fn normalize_dashes(name: &str) -> (r: String)
    ensures
        r@ == spec_normalize_dashes(name@),
        is_valid_crate_name(r@),
{
    proof {
        lemma_normalize_valid(name@);
    }
    let ghost s = name@;
    let mut out = String::new();
    proof {
        assert(out@ =~= spec_normalize_dashes(s.take(0)));
    }
    let len = name.unicode_len();
    let mut i: usize = 0;
    while i < len
        invariant
            0 <= i <= len,
            len == s.len(),
            s == name@,
            out@ == spec_normalize_dashes(s.take(i as int)),
        decreases len - i,
    {
        let c = name.get_char(i);
        if c == '-' {
            out.append("_");
            proof {
                reveal_strlit("_");
                assert(out@ =~= spec_normalize_dashes(s.take(i as int)).push('_'));
            }
        } else {
            let piece = name.substring_char(i, i + 1);
            out.append(piece);
            proof {
                assert(piece@ =~= seq![s[i as int]]);
                assert(out@ =~= spec_normalize_dashes(s.take(i as int)).push(s[i as int]));
            }
        }
        proof {
            assert(spec_normalize_dashes(s.take(i + 1)) =~= spec_normalize_dashes(
                s.take(i as int),
            ).push(
                if s[i as int] == '-' {
                    '_'
                } else {
                    s[i as int]
                },
            ));
        }
        i = i + 1;
    }
    proof {
        assert(s.take(s.len() as int) =~= s);
    }
    out
}

} // verus!
