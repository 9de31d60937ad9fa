//! Where the drills get their randomness.

use vstd::prelude::*;
use rand::seq::SliceRandom;
use rand::Rng;

verus! {

/// Puts `items` in a random order with `rand`'s `SliceRandom::shuffle`, fed
/// by the thread's generator. Trusted: the shuffle only swaps elements, so
/// the same items are there afterwards, each as often as before; nothing is
/// claimed about their order.
#[verifier::external_body]
pub(crate) fn shuffle<T>(items: &mut Vec<T>)
    ensures
        final(items)@.to_multiset() == old(items)@.to_multiset(),
{
    items.shuffle(&mut rand::thread_rng());
}

/// Draws a number below `bound` with `rand`'s `Rng::gen_range(0, bound)`,
/// fed by the thread's generator. Trusted: the draw lies in the half-open
/// range; `gen_range` panics on an empty range, which `requires` rules out.
#[verifier::external_body]
pub(crate) fn pick_below(bound: usize) -> (picked: usize)
    requires
        bound > 0,
    ensures
        picked < bound,
{
    rand::thread_rng().gen_range(0, bound)
}

/// Two arrangements of the same items are still arrangements of the same
/// items after each item is replaced by what `f` makes of it.
pub proof fn lemma_map_keeps_arrangement<A, B>(first: Seq<A>, second: Seq<A>, f: spec_fn(A) -> B)
    requires
        first.to_multiset() == second.to_multiset(),
    ensures
        first.map_values(f).to_multiset() == second.map_values(f).to_multiset(),
    decreases first.len(),
{
    broadcast use vstd::seq_lib::group_to_multiset_ensures;

    first.to_multiset_ensures();
    second.to_multiset_ensures();
    if first.len() == 0 {
        assert(second.len() == 0);
        assert(first.map_values(f) =~= second.map_values(f));
    } else {
        let item = first.last();
        let rest = first.drop_last();
        assert(first =~= rest.push(item));
        assert(first.to_multiset().count(item) > 0);
        assert(second.contains(item));
        let at = second.index_of(item);
        let others = second.remove(at);
        assert(second =~= others.insert(at, item));
        assert(rest.to_multiset() =~= first.to_multiset().remove(item));
        assert(others.to_multiset() =~= second.to_multiset().remove(item));
        lemma_map_keeps_arrangement(rest, others, f);
        assert(first.map_values(f) =~= rest.map_values(f).push(f(item)));
        assert(second.map_values(f) =~= others.map_values(f).insert(at, f(item)));
    }
}

} // verus!
