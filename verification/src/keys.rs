//! The ids that a table or a set holds, as a list.

use vstd::prelude::*;
use vstd::std_specs::iter::IteratorSpec;
use std::collections::HashMap;
use std::collections::HashSet;

verus! {

broadcast use vstd::std_specs::hash::group_hash_axioms;

/// A list holds the elements of a set, each once.
pub open spec fn lists(ids: Seq<u64>, set: Set<u64>) -> bool {
    &&& ids.no_duplicates()
    &&& ids.to_set() == set
    &&& ids.len() == set.len()
}

/// Dereferencing the elements of a list keeps them distinct.
proof fn lemma_unref_distinct(all: Seq<&u64>)
    requires
        all.no_duplicates(),
    ensures
        all.unref().no_duplicates(),
{
    assert forall|i: int, j: int|
        0 <= i < all.unref().len() && 0 <= j < all.unref().len() && i != j implies all.unref()[i]
        != all.unref()[j] by {
        assert(all[i] != all[j]);
    }
}

/// What a list holds after one more element: what it held, and the
/// element. A list of distinct elements stays one when the element is
/// new.
pub proof fn lemma_push(s: Seq<u64>, x: u64)
    ensures
        forall|k: u64| #[trigger] s.push(x).contains(k) <==> s.contains(k) || k == x,
        s.no_duplicates() && !s.contains(x) ==> s.push(x).no_duplicates(),
{
    assert forall|k: u64| #[trigger] s.push(x).contains(k) <==> s.contains(k) || k == x by {
        if s.push(x).contains(k) {
            let j = choose|j: int| 0 <= j < s.push(x).len() && s.push(x)[j] == k;
            if j < s.len() {
                assert(s[j] == k);
            }
        }
        if s.contains(k) {
            let j = choose|j: int| 0 <= j < s.len() && s[j] == k;
            assert(s.push(x)[j] == k);
        }
        if k == x {
            assert(s.push(x)[s.len() as int] == k);
        }
    }
    if s.no_duplicates() && !s.contains(x) {
        assert forall|i: int, j: int|
            0 <= i < s.push(x).len() && 0 <= j < s.push(x).len() && i != j implies s.push(x)[i]
            != s.push(x)[j] by {
            if i < s.len() && j == s.len() {
                assert(s.contains(s[i]));
            }
            if j < s.len() && i == s.len() {
                assert(s.contains(s[j]));
            }
        }
    }
}

/// The keys of a table, each once, in no particular order.
pub fn map_keys<V>(table: &HashMap<u64, V>) -> (r: Vec<u64>)
    ensures
        lists(r@, table@.dom()),
{
    let mut out: Vec<u64> = Vec::new();
    let ghost all = table.keys().remaining();
    for id in it: table.keys()
        invariant
            it.seq() == all,
            all.no_duplicates(),
            all.unref().to_set() == table@.dom(),
            all.len() == table@.dom().len(),
            out@ == all.unref().take(it.index()),
    {
        assert(all.unref().take(it.index() + 1) =~= all.unref().take(it.index()).push(*id));
        out.push(*id);
    }
    assert(out@ =~= all.unref());
    proof {
        lemma_unref_distinct(all);
    }
    out
}

/// The members of a set, each once, in no particular order.
pub fn set_members(set: &HashSet<u64>) -> (r: Vec<u64>)
    ensures
        lists(r@, set@),
{
    let mut out: Vec<u64> = Vec::new();
    let ghost all = set.iter().remaining();
    for id in it: set.iter()
        invariant
            it.seq() == all,
            all.no_duplicates(),
            all.unref().to_set() == set@,
            all.len() == set@.len(),
            out@ == all.unref().take(it.index()),
    {
        assert(all.unref().take(it.index() + 1) =~= all.unref().take(it.index()).push(*id));
        out.push(*id);
    }
    assert(out@ =~= all.unref());
    proof {
        lemma_unref_distinct(all);
    }
    out
}

} // verus!
