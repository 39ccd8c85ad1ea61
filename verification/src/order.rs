//! Stable ordering of items by an integer key.
//!
//! Sorting is delegated to the standard library. The one trusted function
//! sorts pairs of key and position; everything else is proved from it.

use vstd::prelude::*;
use vstd::seq_lib::*;

verus! {

/// Lexicographic "less or equal" on pairs of key and position.
pub open spec fn pair_le(a: (u64, usize), b: (u64, usize)) -> bool {
    a.0 < b.0 || (a.0 == b.0 && a.1 <= b.1)
}

/// Position `a` comes before position `b`: its key is smaller, or the keys
/// are equal and `a` is the earlier position.
pub open spec fn comes_before(keys: Seq<u64>, a: int, b: int) -> bool {
    keys[a] < keys[b] || (keys[a] == keys[b] && a < b)
}

/// `order` holds position `q` somewhere.
pub open spec fn lists(order: Seq<usize>, q: int) -> bool {
    exists|i: int| 0 <= i < order.len() && #[trigger] order[i] == q
}

/// `order` lists every position of `keys` exactly once, by ascending key and,
/// among equal keys, by ascending position.
pub open spec fn is_stable_order(order: Seq<usize>, keys: Seq<u64>) -> bool {
    &&& order.len() == keys.len()
    &&& forall|i: int| 0 <= i < order.len() ==> 0 <= #[trigger] order[i] < keys.len()
    &&& forall|i: int, j: int|
        0 <= i < j < order.len() ==> comes_before(
            keys,
            #[trigger] order[i] as int,
            #[trigger] order[j] as int,
        )
    &&& forall|q: int| 0 <= q < keys.len() ==> #[trigger] lists(order, q)
}

/// The stable order of `keys`. There is exactly one; see
/// [`lemma_stable_order_unique`].
pub open spec fn stable_order_of(keys: Seq<u64>) -> Seq<usize> {
    choose|order: Seq<usize>| is_stable_order(order, keys)
}

/// `items` rearranged by `order`.
pub open spec fn arranged<T>(items: Seq<T>, order: Seq<usize>) -> Seq<T> {
    Seq::new(order.len(), |i: int| items[order[i] as int])
}

/// Two stable orders of the same keys are the same sequence.
pub proof fn lemma_stable_order_unique(first: Seq<usize>, second: Seq<usize>, keys: Seq<u64>)
    requires
        is_stable_order(first, keys),
        is_stable_order(second, keys),
    ensures
        first == second,
{
    assert forall|i: int| 0 <= i < first.len() implies first[i] == second[i] by {
        lemma_stable_order_agree(first, second, keys, i);
    }
    assert(first =~= second);
}

proof fn lemma_stable_order_agree(first: Seq<usize>, second: Seq<usize>, keys: Seq<u64>, i: int)
    requires
        is_stable_order(first, keys),
        is_stable_order(second, keys),
        0 <= i < first.len(),
    ensures
        first[i] == second[i],
    decreases i,
{
    assert forall|k: int| 0 <= k < i implies first[k] == second[k] by {
        lemma_stable_order_agree(first, second, keys, k);
    }
    let a = first[i] as int;
    let b = second[i] as int;
    if a != b {
        if comes_before(keys, a, b) {
            lemma_missing_position(second, first, keys, i);
        } else {
            assert(comes_before(keys, b, a));
            lemma_missing_position(first, second, keys, i);
        }
    }
}

/// Where two stable orders agree below `i`, the entry of `other` at `i` does
/// not come before that of `order`: `order` would have to list it earlier.
proof fn lemma_missing_position(order: Seq<usize>, other: Seq<usize>, keys: Seq<u64>, i: int)
    requires
        is_stable_order(order, keys),
        is_stable_order(other, keys),
        0 <= i < order.len(),
        forall|k: int| 0 <= k < i ==> order[k] == other[k],
    ensures
        !comes_before(keys, other[i] as int, order[i] as int),
{
    let q = other[i] as int;
    assert(lists(order, q));
    let j = choose|j: int| 0 <= j < order.len() && order[j] == q;
    if j < i {
        assert(other[j] == q);
        assert(comes_before(keys, other[j] as int, other[i] as int));
    } else if j > i {
        assert(comes_before(keys, order[i] as int, order[j] as int));
    }
}

/// Sorts pairs of key and position with `slice::sort`, which orders tuples
/// lexicographically. The contract claims that the result holds the same
/// pairs as before, in ascending order.
#[verifier::external_body]
fn sort_pairs(pairs: &mut Vec<(u64, usize)>)
    ensures
        final(pairs)@.to_multiset() == old(pairs)@.to_multiset(),
        forall|i: int, j: int|
            0 <= i < j < final(pairs)@.len() ==> pair_le(final(pairs)@[i], final(pairs)@[j]),
{
    pairs.sort();
}

/// Computes the stable order of `keys`: the positions of `keys` by ascending
/// key, equal keys in the order given.
pub fn stable_order(keys: &Vec<u64>) -> (order: Vec<usize>)
    ensures
        is_stable_order(order@, keys@),
        order@ == stable_order_of(keys@),
{
    let n: usize = keys.len();
    let mut pairs: Vec<(u64, usize)> = Vec::new();
    let mut i: usize = 0;
    while i < n
        invariant
            i <= n,
            n == keys.len(),
            pairs.len() == i,
            forall|k: int| 0 <= k < i ==> pairs@[k] == (keys@[k], k as usize),
        decreases n - i,
    {
        pairs.push((keys[i], i));
        i = i + 1;
    }
    let ghost tagged = pairs@;
    sort_pairs(&mut pairs);
    proof {
        assert(tagged.no_duplicates());
        tagged.lemma_multiset_has_no_duplicates();
        pairs@.lemma_multiset_has_no_duplicates_conv();
        to_multiset_len(tagged);
        to_multiset_len(pairs@);
        assert forall|k: int| 0 <= k < n implies (#[trigger] pairs@[k]).1 < n && pairs@[k].0
            == keys@[pairs@[k].1 as int] by {
            assert(pairs@.contains(pairs@[k]));
            to_multiset_contains(pairs@, pairs@[k]);
            to_multiset_contains(tagged, pairs@[k]);
            let q = choose|q: int| 0 <= q < tagged.len() && tagged[q] == pairs@[k];
            assert(tagged[q] == (keys@[q], q as usize));
        }
    }
    let mut order: Vec<usize> = Vec::new();
    let mut k: usize = 0;
    while k < n
        invariant
            k <= n,
            pairs.len() == n,
            order.len() == k,
            forall|m: int| 0 <= m < k ==> order@[m] == pairs@[m].1,
        decreases n - k,
    {
        order.push(pairs[k].1);
        k = k + 1;
    }
    proof {
        assert forall|a: int, b: int| 0 <= a < b < order@.len() implies comes_before(
            keys@,
            #[trigger] order@[a] as int,
            #[trigger] order@[b] as int,
        ) by {
            assert(pair_le(pairs@[a], pairs@[b]));
            assert(pairs@[a] != pairs@[b]);
        }
        assert forall|q: int| 0 <= q < keys@.len() implies #[trigger] lists(order@, q) by {
            assert(tagged[q] == (keys@[q], q as usize));
            assert(tagged.contains(tagged[q]));
            to_multiset_contains(tagged, tagged[q]);
            to_multiset_contains(pairs@, tagged[q]);
            let m = choose|m: int| 0 <= m < pairs@.len() && pairs@[m] == tagged[q];
            assert(order@[m] == q);
        }
        assert(is_stable_order(order@, keys@));
        lemma_stable_order_unique(order@, stable_order_of(keys@), keys@);
    }
    order
}

} // verus!
