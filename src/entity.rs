//! Lists keyed by entity id, standing in for the engine's per-entity maps.
//! Entities are named by their 64-bit id.

use vstd::prelude::*;

verus! {

/// `i` is the first position of `s` whose key is `k`.
pub open spec fn is_first_key<V>(s: Seq<(u64, V)>, k: u64, i: int) -> bool {
    &&& 0 <= i < s.len()
    &&& s[i].0 == k
    &&& forall|j: int| 0 <= j < i ==> s[j].0 != k
}

/// The first position of `s` whose key is `k`, or `-1` where none has it.
pub open spec fn find_key<V>(s: Seq<(u64, V)>, k: u64) -> int {
    if exists|i: int| is_first_key(s, k, i) {
        choose|i: int| is_first_key(s, k, i)
    } else {
        -1
    }
}

/// No key occurs twice in `s`.
pub open spec fn keys_unique<V>(s: Seq<(u64, V)>) -> bool {
    forall|i: int, j: int| 0 <= i < j < s.len() ==> s[i].0 != s[j].0
}

/// Where `i` is the first position of key `k`, `find_key` returns it.
pub proof fn lemma_find_key_first<V>(s: Seq<(u64, V)>, k: u64, i: int)
    requires
        is_first_key(s, k, i),
    ensures
        find_key(s, k) == i,
{
    let c = choose|c: int| is_first_key(s, k, c);
    assert(is_first_key(s, k, c));
    if c < i {
        assert(s[c].0 != k);
    } else if i < c {
        assert(s[i].0 != k);
    }
}

/// Where no position has key `k`, `find_key` returns `-1`.
pub proof fn lemma_find_key_absent<V>(s: Seq<(u64, V)>, k: u64)
    requires
        forall|i: int| 0 <= i < s.len() ==> s[i].0 != k,
    ensures
        find_key(s, k) == -1,
{
}

/// The position of the first entry of `s` with key `k`.
pub fn find_entry<V>(s: &Vec<(u64, V)>, k: u64) -> (r: Option<usize>)
    ensures
        match r {
            Some(i) => is_first_key(s@, k, i as int) && find_key(s@, k) == i,
            None => find_key(s@, k) == -1 && forall|i: int| 0 <= i < s@.len() ==> s@[i].0 != k,
        },
{
    let mut i: usize = 0;
    while i < s.len()
        invariant
            i <= s@.len(),
            forall|j: int| 0 <= j < i ==> s@[j].0 != k,
        decreases s@.len() - i,
    {
        if s[i].0 == k {
            proof {
                lemma_find_key_first(s@, k, i as int);
            }
            return Some(i);
        }
        i = i + 1;
    }
    proof {
        lemma_find_key_absent(s@, k);
    }
    None
}

} // verus!
