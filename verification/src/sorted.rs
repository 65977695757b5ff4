//! Sets of numbers from which the lowest is taken first.
use std::collections::BTreeSet;
use vstd::prelude::*;

verus! {

/// The lowest number of a set.
pub fn lowest(set: &BTreeSet<u32>) -> (r: Option<u32>)
    ensures
        match r {
            Some(x) => set@.contains(x) && forall|y: u32| set@.contains(y) ==> x <= y,
            None => set@ == Set::<u32>::empty(),
        },
{
    broadcast use vstd::std_specs::btree::group_btree_axioms;
    broadcast use vstd::laws_cmp::group_laws_cmp;

    for x in it: set.iter()
        invariant
            it.index() == 0,
            it.seq().unref().to_set() == set@,
            vstd::std_specs::btree::increasing_seq(it.seq()),
    {
        let ghost all = it.seq();
        proof {
            assert(all.unref()[0] == *x);
            assert(vstd::laws_cmp::obeys_cmp::<&u32>());
            assert forall|y: u32| set@.contains(y) implies *x <= y by {
                assert(all.unref().contains(y));
                let k = choose|k: int| 0 <= k < all.unref().len() && all.unref()[k] == y;
                if k > 0 {
                    assert(vstd::std_specs::cmp::OrdSpec::cmp_spec(&all[0], &all[k]) is Less);
                }
            }
        }
        return Some(*x);
    }
    assert(set@ =~= Set::<u32>::empty());
    None
}

/// Takes the lowest number out of a set.
pub fn take_lowest(set: &mut BTreeSet<u32>) -> (r: Option<u32>)
    ensures
        match r {
            Some(x) => {
                &&& old(set)@.contains(x)
                &&& forall|y: u32| old(set)@.contains(y) ==> x <= y
                &&& final(set)@ == old(set)@.remove(x)
            },
            None => old(set)@ == Set::<u32>::empty() && final(set)@ == old(set)@,
        },
{
    broadcast use vstd::std_specs::btree::group_btree_axioms;
    broadcast use vstd::laws_cmp::group_laws_cmp;

    match lowest(set) {
        Some(x) => {
            set.remove(&x);
            Some(x)
        },
        None => None,
    }
}

/// Puts a number in a set; `true` if it was not there yet.
pub fn put(set: &mut BTreeSet<u32>, x: u32) -> (added: bool)
    ensures
        added == !old(set)@.contains(x),
        final(set)@ == old(set)@.insert(x),
{
    broadcast use vstd::laws_cmp::group_laws_cmp;

    set.insert(x)
}

/// Whether numbers stand in ascending order.
pub open spec fn ascending(v: Seq<u32>) -> bool {
    forall|i: int, j: int| 0 <= i < j < v.len() ==> v[i] < v[j]
}

/// The numbers of a set, in ascending order.
pub fn numbers(set: &BTreeSet<u32>) -> (v: Vec<u32>)
    ensures
        v@.to_set() == set@,
        ascending(v@),
{
    broadcast use vstd::std_specs::btree::group_btree_axioms;
    broadcast use vstd::laws_cmp::group_laws_cmp;

    let mut v: Vec<u32> = Vec::new();
    let ghost all = vstd::std_specs::iter::IteratorSpec::remaining(
        &vstd::std_specs::btree::spec_btree_keys_iter(set),
    );
    for x in it: set.iter()
        invariant
            it.seq() == all,
            vstd::std_specs::btree::increasing_seq(it.seq()),
            v@.len() == it.index(),
            forall|k: int| 0 <= k < v@.len() ==> #[trigger] v@[k] == *it.seq()[k],
            ascending(v@),
    {
        let ghost n: int = it.index();
        proof {
            assert(vstd::laws_cmp::obeys_cmp::<&u32>());
            assert forall|k: int| 0 <= k < n implies v@[k] < *x by {
                assert(vstd::std_specs::cmp::OrdSpec::cmp_spec(&all[k], &all[n]) is Less);
            }
        }
        v.push(*x);
    }
    assert(v@ =~= all.unref());
    v
}

} // verus!
