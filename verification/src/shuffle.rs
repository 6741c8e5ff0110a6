//! Random orders of the cells of a board.

use crate::mines::is_shuffle;
use rand::seq::SliceRandom;
use vstd::prelude::*;

verus! {

/// Shuffles `items` in place with `SliceRandom::shuffle` of the `rand`
/// crate, driven by the generator of the thread that `rand::rng` hands out.
///
/// Taken on trust: the shuffle only swaps items, so the vector holds
/// afterwards what it held before, each item as often. Which order comes
/// out is a matter of chance, and nothing is claimed of it. The call fails
/// only where the operating system gives the generator no seed.
#[verifier::external_body]
fn shuffle(items: &mut Vec<usize>)
    ensures
        final(items)@.to_multiset() == old(items)@.to_multiset(),
{
    let mut rng = rand::rng();
    items.shuffle(&mut rng);
}

/// The places `0 .. n` in their natural order.
pub open spec fn in_order(n: nat) -> Seq<usize> {
    Seq::new(n, |i: int| i as usize)
}

/// Any rearrangement of the places `0 .. n` lists each of them once.
pub proof fn lemma_rearranged_is_shuffle(order: Seq<usize>, n: nat)
    requires
        n <= usize::MAX,
        order.to_multiset() == in_order(n).to_multiset(),
    ensures
        is_shuffle(order, n),
{
    let sorted = in_order(n);
    vstd::seq_lib::to_multiset_len(order);
    vstd::seq_lib::to_multiset_len(sorted);
    assert(order.len() == sorted.len());
    assert(sorted.no_duplicates());
    sorted.lemma_multiset_has_no_duplicates();
    order.lemma_multiset_has_no_duplicates_conv();
    assert forall|i: int| 0 <= i < order.len() implies (#[trigger] order[i]) < n by {
        assert(order.contains(order[i]));
        vstd::seq_lib::to_multiset_contains(order, order[i]);
        vstd::seq_lib::to_multiset_contains(sorted, order[i]);
        assert(sorted.contains(order[i]));
        let k = choose|k: int| 0 <= k < sorted.len() && sorted[k] == order[i];
        assert(sorted[k] == k);
    }
}

/// The places `0 .. n` in a random order.
pub fn shuffled_places(n: usize) -> (order: Vec<usize>)
    ensures
        is_shuffle(order@, n as nat),
{
    let mut order: Vec<usize> = Vec::new();
    let mut i: usize = 0;
    while i < n
        invariant
            i <= n,
            order@ == in_order(i as nat),
        decreases n - i,
    {
        order.push(i);
        assert(order@ =~= in_order((i + 1) as nat));
        i += 1;
    }
    shuffle(&mut order);
    proof {
        lemma_rearranged_is_shuffle(order@, n as nat);
    }
    order
}

} // verus!
