//! Ranking: stable orders of items by the numbers that they carry.
//!
//! The numbers come as bit patterns of IEEE floating-point values. An order is
//! a list of positions.

use crate::ieee;
use vstd::prelude::*;
use vstd::set_lib::*;

verus! {

/// In order of keys, position `a` comes before position `b`. Of two equal keys
/// the first one comes first.
pub open spec fn before(keys: Seq<i128>, a: int, b: int) -> bool {
    keys[a] < keys[b] || (keys[a] == keys[b] && a < b)
}

/// `ids` lists the positions of `keys` in order.
pub open spec fn is_order(ids: Seq<usize>, keys: Seq<i128>) -> bool {
    &&& ids.len() == keys.len()
    &&& forall|i: int| 0 <= i < ids.len() ==> #[trigger] ids[i] < keys.len()
    &&& forall|i: int, j: int|
        0 <= i < j < ids.len() ==> before(keys, #[trigger] ids[i] as int, #[trigger] ids[j] as int)
}

/// Positions without repetition that are as many as there are places take every
/// place.
pub proof fn lemma_all_places(ids: Seq<usize>, n: nat, e: usize)
    requires
        ids.len() == n,
        ids.no_duplicates(),
        forall|i: int| 0 <= i < ids.len() ==> #[trigger] ids[i] < n,
        e < n,
    ensures
        ids.contains(e),
{
    let places = ids.map_values(|u: usize| u as int);
    assert(places.no_duplicates()) by {
        assert forall|i: int, j: int| 0 <= i < places.len() && 0 <= j < places.len() && i != j implies
            places[i] != places[j] by {
            assert(ids[i] != ids[j]);
        }
    }
    places.unique_seq_to_set();
    lemma_int_range(0, n as int);
    assert(places.to_set().subset_of(set_int_range(0, n as int))) by {
        assert forall|x: int| places.to_set().contains(x) implies set_int_range(
            0,
            n as int,
        ).contains(x) by {
            let i = choose|i: int| 0 <= i < places.len() && places[i] == x;
            assert(ids[i] < n);
        }
    }
    lemma_subset_equality(places.to_set(), set_int_range(0, n as int));
    assert(places.to_set().contains(e as int));
    let i = choose|i: int| 0 <= i < places.len() && places[i] == e as int;
    assert(ids[i] == e);
}

/// There is only one order.
pub proof fn order_is_unique(a: Seq<usize>, b: Seq<usize>, keys: Seq<i128>)
    requires
        is_order(a, keys),
        is_order(b, keys),
    ensures
        a == b,
{
    assert forall|i: int| 0 <= i < a.len() implies a[i] == b[i] by {
        lemma_same_order(a, b, keys, i + 1);
    }
    assert(a == b);
}

proof fn lemma_same_order(a: Seq<usize>, b: Seq<usize>, keys: Seq<i128>, n: int)
    requires
        is_order(a, keys),
        is_order(b, keys),
        0 <= n <= a.len(),
    ensures
        forall|i: int| 0 <= i < n ==> a[i] == b[i],
    decreases n,
{
    if n > 0 {
        lemma_same_order(a, b, keys, n - 1);
        let (x, y) = (a[n - 1], b[n - 1]);
        if x != y {
            order_is_complete(a, keys, y);
            order_is_complete(b, keys, x);
            let i = choose|i: int| 0 <= i < a.len() && a[i] == y;
            let j = choose|j: int| 0 <= j < b.len() && b[j] == x;
            if i < n - 1 {
                assert(before(keys, b[i] as int, b[n - 1] as int));
            }
            if j < n - 1 {
                assert(before(keys, a[j] as int, a[n - 1] as int));
            }
            assert(before(keys, a[n - 1] as int, a[i] as int));
            assert(before(keys, b[n - 1] as int, b[j] as int));
            assert(false);
        }
    }
}

/// Every position stands somewhere in the order.
pub proof fn order_is_complete(ids: Seq<usize>, keys: Seq<i128>, e: usize)
    requires
        is_order(ids, keys),
        e < keys.len(),
    ensures
        ids.contains(e),
{
    assert(ids.no_duplicates()) by {
        assert forall|i: int, j: int| 0 <= i < ids.len() && 0 <= j < ids.len() && i != j implies
            ids[i] != ids[j] by {
            if i < j {
                assert(before(keys, ids[i] as int, ids[j] as int));
            } else {
                assert(before(keys, ids[j] as int, ids[i] as int));
            }
        }
    }
    lemma_all_places(ids, keys.len(), e);
}

/// The positions of `keys` in order.
pub fn order_of(keys: &[i128]) -> (ids: Vec<usize>)
    ensures
        is_order(ids@, keys@),
{
    let mut ids: Vec<usize> = Vec::new();
    let mut i: usize = 0;
    while i < keys.len()
        invariant
            i <= keys@.len(),
            ids@.len() == i,
            forall|k: int| 0 <= k < i ==> #[trigger] ids@[k] < i,
            forall|k: int, l: int|
                0 <= k < l < i ==> before(
                    keys@,
                    #[trigger] ids@[k] as int,
                    #[trigger] ids@[l] as int,
                ),
        decreases keys@.len() - i,
    {
        let mut p: usize = i;
        while p > 0 && keys[i] < keys[ids[p - 1]]
            invariant
                p <= i < keys@.len(),
                ids@.len() == i,
                forall|k: int| 0 <= k < i ==> #[trigger] ids@[k] < i,
                forall|k: int| p <= k < i ==> keys@[i as int] < keys@[#[trigger] ids@[k] as int],
            decreases p,
        {
            p = p - 1;
        }
        let ghost was = ids@;
        ids.insert(p, i);
        proof {
            assert forall|k: int, l: int| 0 <= k < l < i + 1 implies before(
                keys@,
                #[trigger] ids@[k] as int,
                #[trigger] ids@[l] as int,
            ) by {
                let a = if k < p {
                    k
                } else {
                    k - 1
                };
                let b = if l < p {
                    l
                } else {
                    l - 1
                };
                if k == p {
                    assert(ids@[l] == was[b]);
                } else if l == p {
                    assert(ids@[k] == was[a]);
                    assert(before(keys@, was[a] as int, was[p - 1] as int) || a == p - 1);
                } else {
                    assert(ids@[k] == was[a] && ids@[l] == was[b]);
                }
            }
        }
        i = i + 1;
    }
    ids
}

// ---------------------------------------------------------------------------
// Largest first
// ---------------------------------------------------------------------------

/// No pattern stands for something that is not a number.
pub open spec fn all_numbers32(scores: Seq<u32>) -> bool {
    forall|i: int| 0 <= i < scores.len() ==> !ieee::is_nan32(#[trigger] scores[i])
}

/// No pattern stands for something that is not a number.
pub open spec fn all_numbers64(scores: Seq<u64>) -> bool {
    forall|i: int| 0 <= i < scores.len() ==> !ieee::is_nan64(#[trigger] scores[i])
}

/// Position `a` ranks above position `b`: it has the larger score, or the same
/// score and comes first.
pub open spec fn outranks(scores: Seq<u32>, a: int, b: int) -> bool {
    ieee::less32(scores[b], scores[a]) || (!ieee::less32(scores[a], scores[b]) && a < b)
}

/// `ids` lists the `k` positions of the largest scores, or all positions where
/// there are fewer, from the largest on.
pub open spec fn is_top(ids: Seq<usize>, scores: Seq<u32>, k: nat) -> bool {
    &&& ids.len() == if k < scores.len() {
        k
    } else {
        scores.len()
    }
    &&& forall|i: int| 0 <= i < ids.len() ==> #[trigger] ids[i] < scores.len()
    &&& forall|i: int, j: int|
        0 <= i < j < ids.len() ==> outranks(
            scores,
            #[trigger] ids[i] as int,
            #[trigger] ids[j] as int,
        )
    &&& forall|i: int, e: usize|
        0 <= i < ids.len() && e < scores.len() && !ids.contains(e) ==> #[trigger] outranks(
            scores,
            ids[i] as int,
            e as int,
        )
}

/// The positions of the `k` largest scores, from the largest on. Of equal scores
/// the first wins.
pub fn top_k_ids(scores: &[u32], k: usize) -> (ids: Vec<usize>)
    requires
        all_numbers32(scores@),
    ensures
        is_top(ids@, scores@, k as nat),
{
    let mut keys: Vec<i128> = Vec::new();
    let mut i: usize = 0;
    while i < scores.len()
        invariant
            i <= scores@.len(),
            keys@.len() == i,
            forall|j: int| 0 <= j < i ==> #[trigger] keys@[j] == -ieee::key32(scores@[j]),
        decreases scores@.len() - i,
    {
        let b: u32 = scores[i];
        let key: i128 = if b < 0x8000_0000 {
            -(b as i128)
        } else {
            b as i128 - 0x8000_0000
        };
        keys.push(key);
        i = i + 1;
    }
    let mut ids = order_of(keys.as_slice());
    let ghost all = ids@;
    proof {
        assert forall|a: int, b: int|
            0 <= a < scores@.len() && 0 <= b < scores@.len() && before(
                keys@,
                a,
                b,
            ) implies #[trigger] outranks(scores@, a, b) by {
            assert(keys@[a] == -ieee::key32(scores@[a]));
            assert(keys@[b] == -ieee::key32(scores@[b]));
            assert(!ieee::is_nan32(scores@[a]) && !ieee::is_nan32(scores@[b]));
        }
    }
    ids.truncate(k);
    proof {
        assert forall|i: int, e: usize|
            0 <= i < ids@.len() && e < scores@.len() && !ids@.contains(
                e,
            ) implies #[trigger] outranks(scores@, ids@[i] as int, e as int) by {
            order_is_complete(all, keys@, e);
            let j = choose|j: int| 0 <= j < all.len() && all[j] == e;
            if j < ids@.len() {
                assert(ids@[j] == e);
            }
            assert(before(keys@, all[i] as int, all[j] as int));
            assert(ids@[i] == all[i]);
        }
        assert forall|i: int, j: int| 0 <= i < j < ids@.len() implies outranks(
            scores@,
            #[trigger] ids@[i] as int,
            #[trigger] ids@[j] as int,
        ) by {
            assert(ids@[i] == all[i] && ids@[j] == all[j]);
            assert(before(keys@, all[i] as int, all[j] as int));
        }
    }
    ids
}

/// A selected position never scores below one that is left out.
pub proof fn top_dominates(ids: Seq<usize>, scores: Seq<u32>, k: nat, i: int, e: usize)
    requires
        is_top(ids, scores, k),
        0 <= i < ids.len(),
        e < scores.len(),
        !ids.contains(e),
    ensures
        !ieee::less32(scores[ids[i] as int], scores[e as int]),
{
    assert(outranks(scores, ids[i] as int, e as int));
}

/// There is only one way to list the largest scores.
pub proof fn top_is_unique(a: Seq<usize>, b: Seq<usize>, scores: Seq<u32>, k: nat)
    requires
        is_top(a, scores, k),
        is_top(b, scores, k),
    ensures
        a == b,
{
    assert forall|i: int| 0 <= i < a.len() implies a[i] == b[i] by {
        lemma_same_prefix(a, b, scores, k, i + 1);
    }
    assert(a == b);
}

proof fn lemma_same_prefix(a: Seq<usize>, b: Seq<usize>, scores: Seq<u32>, k: nat, n: int)
    requires
        is_top(a, scores, k),
        is_top(b, scores, k),
        0 <= n <= a.len(),
    ensures
        forall|i: int| 0 <= i < n ==> a[i] == b[i],
    decreases n,
{
    if n > 0 {
        lemma_same_prefix(a, b, scores, k, n - 1);
        if a[n - 1] != b[n - 1] {
            lemma_goes_first(a, b, scores, k, n - 1);
            lemma_goes_first(b, a, scores, k, n - 1);
            assert(false);
        }
    }
}

proof fn lemma_goes_first(a: Seq<usize>, b: Seq<usize>, scores: Seq<u32>, k: nat, n: int)
    requires
        is_top(a, scores, k),
        is_top(b, scores, k),
        0 <= n < a.len(),
        forall|i: int| 0 <= i < n ==> a[i] == b[i],
        a[n] != b[n],
    ensures
        outranks(scores, a[n] as int, b[n] as int),
{
    if a.contains(b[n]) {
        let j = choose|j: int| 0 <= j < a.len() && a[j] == b[n];
        if j < n {
            assert(b[j] == b[n]);
            assert(outranks(scores, b[j] as int, b[n] as int));
        }
        assert(outranks(scores, a[n] as int, a[j] as int));
    } else {
        assert(b[n] < scores.len());
        assert(outranks(scores, a[n] as int, b[n] as int));
    }
}

/// The scores of ranks `k - 1` and `k`, counted from zero: the last one that a
/// selection of `k` takes, and the first one that it leaves out.
pub fn margin_pair(scores: &[u32], k: usize) -> (pair: Option<(u32, u32)>)
    requires
        all_numbers32(scores@),
    ensures
        pair is Some <==> 0 < k < scores@.len(),
        pair matches Some((taken, left)) ==> forall|ids: Seq<usize>| #[trigger]
            is_top(ids, scores@, (k + 1) as nat) ==> taken == scores@[ids[k - 1] as int] && left
                == scores@[ids[k as int] as int],
{
    let n: usize = scores.len();
    if k == 0 || k >= n {
        return None;
    }
    let top = top_k_ids(scores, k + 1);
    proof {
        assert forall|ids: Seq<usize>| #[trigger] is_top(ids, scores@, (k + 1) as nat) implies ids
            == top@ by {
            top_is_unique(ids, top@, scores@, (k + 1) as nat);
        }
    }
    Some((scores[top[k - 1]], scores[top[k]]))
}

// ---------------------------------------------------------------------------
// Smallest first
// ---------------------------------------------------------------------------

/// Position `a` ranks below position `b`: it has the smaller number, or the same
/// number and comes first.
pub open spec fn underranks(values: Seq<u64>, a: int, b: int) -> bool {
    ieee::less64(values[a], values[b]) || (!ieee::less64(values[b], values[a]) && a < b)
}

/// `ids` lists all positions, from the smallest number on.
pub open spec fn is_ascending(ids: Seq<usize>, values: Seq<u64>) -> bool {
    &&& ids.len() == values.len()
    &&& forall|i: int| 0 <= i < ids.len() ==> #[trigger] ids[i] < values.len()
    &&& forall|i: int, j: int|
        0 <= i < j < ids.len() ==> underranks(
            values,
            #[trigger] ids[i] as int,
            #[trigger] ids[j] as int,
        )
}

fn keys64(values: &[u64]) -> (keys: Vec<i128>)
    ensures
        keys@.len() == values@.len(),
        forall|j: int|
            0 <= j < values@.len() ==> #[trigger] keys@[j] == ieee::key64(values@[j]),
{
    let mut keys: Vec<i128> = Vec::new();
    let mut i: usize = 0;
    while i < values.len()
        invariant
            i <= values@.len(),
            keys@.len() == i,
            forall|j: int|
                0 <= j < i ==> #[trigger] keys@[j] == ieee::key64(values@[j]),
        decreases values@.len() - i,
    {
        let b: u64 = values[i];
        keys.push(if b < 0x8000_0000_0000_0000 {
            b as i128
        } else {
            0x8000_0000_0000_0000 - b as i128
        });
        i = i + 1;
    }
    keys
}

/// The positions of `values`, from the smallest number on. Equal numbers keep
/// their order.
pub fn ascending_order(values: &[u64]) -> (ids: Vec<usize>)
    requires
        all_numbers64(values@),
    ensures
        is_ascending(ids@, values@),
{
    let keys = keys64(values);
    let ids = order_of(keys.as_slice());
    proof {
        assert forall|i: int, j: int| 0 <= i < j < ids@.len() implies underranks(
            values@,
            #[trigger] ids@[i] as int,
            #[trigger] ids@[j] as int,
        ) by {
            let (a, b) = (ids@[i] as int, ids@[j] as int);
            assert(before(keys@, a, b));
            assert(keys@[a] == ieee::key64(values@[a]) && keys@[b] == ieee::key64(values@[b]));
            assert(!ieee::is_nan64(values@[a]) && !ieee::is_nan64(values@[b]));
        }
    }
    ids
}

/// Every position stands in the ascending order.
pub proof fn ascending_is_complete(ids: Seq<usize>, values: Seq<u64>, e: usize)
    requires
        is_ascending(ids, values),
        e < values.len(),
    ensures
        ids.contains(e),
{
    assert(ids.no_duplicates()) by {
        assert forall|i: int, j: int| 0 <= i < ids.len() && 0 <= j < ids.len() && i != j implies
            ids[i] != ids[j] by {
            if i < j {
                assert(underranks(values, ids[i] as int, ids[j] as int));
            } else {
                assert(underranks(values, ids[j] as int, ids[i] as int));
            }
        }
    }
    lemma_all_places(ids, values.len(), e);
}

/// The largest scores are listed from the largest on, and of equal ones the first
/// comes first. There are as many as asked for, or as many as there are.
pub proof fn the_largest_come_first(ids: Seq<usize>, scores: Seq<u32>, k: nat)
    requires
        is_top(ids, scores, k),
    ensures
        ids.len() <= k,
        ids.len() < k ==> ids.len() == scores.len(),
        forall|i: int, j: int|
            0 <= i < j < ids.len() ==> {
                let (a, b) = (#[trigger] ids[i], #[trigger] ids[j]);
                &&& !ieee::less32(scores[a as int], scores[b as int])
                &&& !ieee::less32(scores[b as int], scores[a as int]) ==> a < b
            },
{
    assert forall|i: int, j: int| 0 <= i < j < ids.len() implies ({
        let (a, b) = (#[trigger] ids[i], #[trigger] ids[j]);
        &&& !ieee::less32(scores[a as int], scores[b as int])
        &&& !ieee::less32(scores[b as int], scores[a as int]) ==> a < b
    }) by {
        assert(outranks(scores, ids[i] as int, ids[j] as int));
    }
}

/// An order lists keys from the smallest on, and of equal ones the first comes
/// first. So does the ascending order of numbers.
pub proof fn the_smallest_come_first(
    ids: Seq<usize>,
    keys: Seq<i128>,
    places: Seq<usize>,
    values: Seq<u64>,
)
    requires
        is_order(ids, keys),
        is_ascending(places, values),
    ensures
        forall|i: int, j: int|
            0 <= i < j < ids.len() ==> {
                let (a, b) = (#[trigger] ids[i], #[trigger] ids[j]);
                keys[a as int] <= keys[b as int] && (keys[a as int] == keys[b as int] ==> a < b)
            },
        forall|i: int, j: int|
            0 <= i < j < places.len() ==> {
                let (a, b) = (#[trigger] places[i], #[trigger] places[j]);
                &&& !ieee::less64(values[b as int], values[a as int])
                &&& !ieee::less64(values[a as int], values[b as int]) ==> a < b
            },
{
    assert forall|i: int, j: int| 0 <= i < j < ids.len() implies ({
        let (a, b) = (#[trigger] ids[i], #[trigger] ids[j]);
        keys[a as int] <= keys[b as int] && (keys[a as int] == keys[b as int] ==> a < b)
    }) by {
        assert(before(keys, ids[i] as int, ids[j] as int));
    }
    assert forall|i: int, j: int| 0 <= i < j < places.len() implies ({
        let (a, b) = (#[trigger] places[i], #[trigger] places[j]);
        &&& !ieee::less64(values[b as int], values[a as int])
        &&& !ieee::less64(values[a as int], values[b as int]) ==> a < b
    }) by {
        assert(underranks(values, places[i] as int, places[j] as int));
    }
}

} // verus!
