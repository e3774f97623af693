//! Small verified string helpers shared across the crate.

use vstd::prelude::*;

verus! {

/// Character-for-character string equality, pinned to equality of the
/// two views.
pub fn str_eq(a: &str, b: &str) -> (r: bool)
    ensures
        r == (a@ == b@),
{
    let alen = a.unicode_len();
    let blen = b.unicode_len();
    if alen != blen {
        return false;
    }
    let mut i: usize = 0;
    while i < alen
        invariant
            alen == a@.len(),
            alen == b@.len(),
            i <= alen,
            forall|j: int| 0 <= j < i ==> a@[j] == b@[j],
        decreases alen - i,
    {
        if a.get_char(i) != b.get_char(i) {
            return false;
        }
        i = i + 1;
    }
    proof {
        assert(a@ =~= b@);
    }
    true
}

/// Each element of `v` reads differently: no two positions hold the
/// same characters.
pub open spec fn distinct_strs(v: Seq<String>) -> bool {
    forall|i: int, j: int|
        #![trigger v[i], v[j]]
        0 <= i < j < v.len() ==> v[i]@ != v[j]@
}

/// Some element of `v` reads `x`.
pub open spec fn seq_contains_str(v: Seq<String>, x: Seq<char>) -> bool {
    exists|i: int| 0 <= i < v.len() && v[i]@ == x
}

/// The first position of `v` whose element reads `x`.
pub open spec fn str_index(v: Seq<String>, x: Seq<char>) -> int {
    choose|i: int| 0 <= i < v.len() && v[i]@ == x
}

/// Whether some element of the vector reads `x`.
pub fn vec_contains_str(v: &Vec<String>, x: &str) -> (r: bool)
    ensures
        r == seq_contains_str(v@, x@),
{
    let n = v.len();
    let mut i: usize = 0;
    while i < n
        invariant
            n == v@.len(),
            i <= n,
            forall|j: int| 0 <= j < i ==> v@[j]@ != x@,
        decreases n - i,
    {
        if str_eq(v[i].as_str(), x) {
            return true;
        }
        i = i + 1;
    }
    false
}

/// Remove the first element that reads `x`, if any.
pub fn vec_remove_str(v: &mut Vec<String>, x: &str)
    ensures
        seq_contains_str(old(v)@, x@) ==> exists|i: int|
            0 <= i < old(v)@.len() && old(v)@[i]@ == x@ && final(v)@ == old(v)@.remove(i),
        !seq_contains_str(old(v)@, x@) ==> final(v)@ == old(v)@,
{
    let ghost v0 = *old(v);
    let n = v.len();
    let mut i: usize = 0;
    while i < n
        invariant
            n == v@.len(),
            i <= n,
            *v == v0,
            v0 == *old(v),
            forall|j: int| 0 <= j < i ==> v@[j]@ != x@,
        decreases n - i,
    {
        if str_eq(v[i].as_str(), x) {
            proof {
                assert(old(v)@[i as int]@ == x@);
                assert(seq_contains_str(old(v)@, x@));
            }
            v.remove(i);
            proof {
                assert(v@ == old(v)@.remove(i as int));
            }
            return ;
        }
        i = i + 1;
    }
}

/// Removing an element keeps the remaining readings distinct.
pub proof fn lemma_remove_keeps_distinct_strs(v: Seq<String>, k: int)
    requires
        0 <= k < v.len(),
        distinct_strs(v),
    ensures
        distinct_strs(v.remove(k)),
{
    let t = v.remove(k);
    assert forall|i: int, j: int|
        #![trigger t[i], t[j]]
        0 <= i < j < t.len() implies t[i]@ != t[j]@ by {
        let i0 = if i < k { i } else { i + 1 };
        let j0 = if j < k { j } else { j + 1 };
        assert(t[i] == v[i0]);
        assert(t[j] == v[j0]);
    }
}

/// `p` is a prefix of `s`.
pub open spec fn starts_with(s: Seq<char>, p: Seq<char>) -> bool {
    &&& p.len() <= s.len()
    &&& forall|j: int| 0 <= j < p.len() ==> s[j] == p[j]
}

/// Whether the string starts with the given prefix.
pub fn str_starts_with(s: &str, p: &str) -> (r: bool)
    ensures
        r == starts_with(s@, p@),
{
    let plen = p.unicode_len();
    let slen = s.unicode_len();
    if plen > slen {
        return false;
    }
    let mut i: usize = 0;
    while i < plen
        invariant
            plen == p@.len(),
            slen == s@.len(),
            plen <= slen,
            i <= plen,
            forall|j: int| 0 <= j < i ==> s@[j] == p@[j],
        decreases plen - i,
    {
        if s.get_char(i) != p.get_char(i) {
            return false;
        }
        i = i + 1;
    }
    true
}

} // verus!
