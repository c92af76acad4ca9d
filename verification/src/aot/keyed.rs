//! Lists of keyed items seen as maps.

use vstd::prelude::*;

verus! {

/// The item at `i` has the key.
pub open spec fn at_key<K, V>(pairs: Seq<(K, V)>, k: K, i: int) -> bool {
    0 <= i < pairs.len() && pairs[i].0 == k
}

/// Some item has the key.
pub open spec fn has_key<K, V>(pairs: Seq<(K, V)>, k: K) -> bool {
    exists|i: int| at_key(pairs, k, i)
}

/// The map that a list of keyed items stands for.
pub open spec fn map_of<K, V>(pairs: Seq<(K, V)>) -> Map<K, V> {
    Map::new(|k: K| has_key(pairs, k), |k: K| pairs[choose|i: int| at_key(pairs, k, i)].1)
}

/// No two items have the same key.
pub open spec fn unique<K, V>(pairs: Seq<(K, V)>) -> bool {
    forall|i: int, j: int|
        0 <= i < pairs.len() && 0 <= j < pairs.len() && i != j ==> (#[trigger] pairs[i]).0 != (
        #[trigger] pairs[j]).0
}

/// The map holds each item under its key.
pub proof fn item_is_found<K, V>(pairs: Seq<(K, V)>, i: int)
    requires
        unique(pairs),
        0 <= i < pairs.len(),
    ensures
        map_of(pairs).contains_pair(pairs[i].0, pairs[i].1),
{
    let k = pairs[i].0;
    assert(at_key(pairs, k, i));
    let j = choose|j: int| at_key(pairs, k, j);
    assert(pairs[j].0 == pairs[i].0);
}

/// Changing the value of an item changes the map at its key.
pub proof fn update_item<K, V>(pairs: Seq<(K, V)>, i: int, v: V)
    requires
        unique(pairs),
        0 <= i < pairs.len(),
    ensures
        unique(pairs.update(i, (pairs[i].0, v))),
        map_of(pairs.update(i, (pairs[i].0, v))) == map_of(pairs).insert(pairs[i].0, v),
{
    let now = pairs.update(i, (pairs[i].0, v));
    assert forall|a: int, b: int| 0 <= a < now.len() && 0 <= b < now.len() && a != b implies (
    #[trigger] now[a]).0 != (#[trigger] now[b]).0 by {
        assert(pairs[a].0 != pairs[b].0);
    }
    let want = map_of(pairs).insert(pairs[i].0, v);
    assert forall|k: K| #[trigger] map_of(now).contains_key(k) <==> want.contains_key(k) by {
        if has_key(now, k) {
            let a = choose|a: int| at_key(now, k, a);
            assert(at_key(pairs, k, a));
        }
        if has_key(pairs, k) {
            let a = choose|a: int| at_key(pairs, k, a);
            assert(at_key(now, k, a));
        }
        if k == pairs[i].0 {
            assert(at_key(now, k, i));
        }
    }
    assert forall|k: K| #[trigger] map_of(now).contains_key(k) implies map_of(now)[k]
        == want[k] by {
        let a = choose|a: int| at_key(now, k, a);
        item_is_found(now, a);
        if a != i {
            assert(now[a] == pairs[a]);
            item_is_found(pairs, a);
            assert(pairs[a].0 != pairs[i].0);
        }
    }
    assert(map_of(now) == want);
}

/// Putting an item with a new key anywhere into the list adds it to the map.
pub proof fn insert_item<K, V>(pairs: Seq<(K, V)>, i: int, k: K, v: V)
    requires
        unique(pairs),
        0 <= i <= pairs.len(),
        !map_of(pairs).contains_key(k),
    ensures
        unique(pairs.insert(i, (k, v))),
        map_of(pairs.insert(i, (k, v))) == map_of(pairs).insert(k, v),
{
    let now = pairs.insert(i, (k, v));
    assert forall|a: int| 0 <= a < pairs.len() implies (#[trigger] pairs[a]).0 != k by {
        item_is_found(pairs, a);
    }
    assert forall|a: int| 0 <= a < now.len() && a != i implies #[trigger] now[a] == pairs[if a < i {
        a
    } else {
        a - 1
    }] by {}
    assert forall|a: int, b: int| 0 <= a < now.len() && 0 <= b < now.len() && a != b implies (
    #[trigger] now[a]).0 != (#[trigger] now[b]).0 by {
        let x = if a < i {
            a
        } else {
            a - 1
        };
        let y = if b < i {
            b
        } else {
            b - 1
        };
        if a == i {
            assert(pairs[y].0 != k);
        } else if b == i {
            assert(pairs[x].0 != k);
        } else {
            assert(pairs[x].0 != pairs[y].0);
        }
    }
    let want = map_of(pairs).insert(k, v);
    assert forall|q: K| #[trigger] map_of(now).contains_key(q) <==> want.contains_key(q) by {
        if has_key(now, q) {
            let a = choose|a: int| at_key(now, q, a);
            if a != i {
                let x = if a < i {
                    a
                } else {
                    a - 1
                };
                assert(at_key(pairs, q, x));
            }
        }
        if has_key(pairs, q) {
            let a = choose|a: int| at_key(pairs, q, a);
            let x = if a < i {
                a
            } else {
                a + 1
            };
            assert(now[x] == pairs[a]);
            assert(at_key(now, q, x));
        }
        if q == k {
            assert(at_key(now, q, i));
        }
    }
    assert forall|q: K| #[trigger] map_of(now).contains_key(q) implies map_of(now)[q]
        == want[q] by {
        let a = choose|a: int| at_key(now, q, a);
        item_is_found(now, a);
        if a != i {
            let x = if a < i {
                a
            } else {
                a - 1
            };
            item_is_found(pairs, x);
            assert(pairs[x].0 != k);
        }
    }
    assert(map_of(now) == want);
}

/// The codes grow from item to item.
pub open spec fn ascending(codes: Seq<u128>) -> bool {
    forall|i: int, j: int| 0 <= i < j < codes.len() ==> #[trigger] codes[i] < #[trigger] codes[j]
}

/// Codes that ascend belong to different keys.
pub proof fn codes_are_unique<K, V>(codes: Seq<u128>, pairs: Seq<(K, V)>, code: spec_fn(K) -> u128)
    requires
        codes.len() == pairs.len(),
        ascending(codes),
        forall|i: int| 0 <= i < pairs.len() ==> #[trigger] codes[i] == code(pairs[i].0),
    ensures
        unique(pairs),
{
    assert forall|i: int, j: int|
        0 <= i < pairs.len() && 0 <= j < pairs.len() && i != j implies (#[trigger] pairs[i]).0 != (
    #[trigger] pairs[j]).0 by {
        if i < j {
            assert(codes[i] < codes[j]);
        } else {
            assert(codes[j] < codes[i]);
        }
    }
}

/// A key whose code is not among the codes is new.
pub proof fn code_is_absent<K, V>(
    codes: Seq<u128>,
    pairs: Seq<(K, V)>,
    code: spec_fn(K) -> u128,
    k: K,
)
    requires
        codes.len() == pairs.len(),
        forall|i: int| 0 <= i < pairs.len() ==> #[trigger] codes[i] == code(pairs[i].0),
        forall|i: int| 0 <= i < codes.len() ==> #[trigger] codes[i] != code(k),
    ensures
        !map_of(pairs).contains_key(k),
{
    if has_key(pairs, k) {
        let i = choose|i: int| at_key(pairs, k, i);
        assert(codes[i] == code(pairs[i].0));
    }
}

/// Putting a code where it belongs keeps the codes ascending.
pub proof fn insert_code(codes: Seq<u128>, at: int, code: u128)
    requires
        ascending(codes),
        0 <= at <= codes.len(),
        forall|j: int| 0 <= j < at ==> #[trigger] codes[j] < code,
        forall|j: int| at <= j < codes.len() ==> code < #[trigger] codes[j],
    ensures
        ascending(codes.insert(at, code)),
{
    let now = codes.insert(at, code);
    assert forall|i: int, j: int| 0 <= i < j < now.len() implies #[trigger] now[i]
        < #[trigger] now[j] by {
        let x = if i < at {
            i
        } else {
            i - 1
        };
        let y = if j < at {
            j
        } else {
            j - 1
        };
        if i == at {
            assert(now[j] == codes[y]);
        } else if j == at {
            assert(now[i] == codes[x]);
        } else {
            assert(now[i] == codes[x] && now[j] == codes[y]);
            assert(codes[x] < codes[y]);
        }
    }
}

/// Where a code stands among ascending ones, or where it would have to be put.
pub fn find_code(codes: &[u128], code: u128) -> (at: (usize, bool))
    requires
        ascending(codes@),
    ensures
        at.0 <= codes@.len(),
        at.1 ==> at.0 < codes@.len() && codes@[at.0 as int] == code,
        forall|j: int| 0 <= j < at.0 ==> #[trigger] codes@[j] < code,
        !at.1 ==> forall|j: int| at.0 <= j < codes@.len() ==> code < #[trigger] codes@[j],
{
    let mut i: usize = 0;
    while i < codes.len() && codes[i] < code
        invariant
            i <= codes@.len(),
            forall|j: int| 0 <= j < i ==> #[trigger] codes@[j] < code,
        decreases codes@.len() - i,
    {
        i = i + 1;
    }
    let found = i < codes.len() && codes[i] == code;
    (i, found)
}

} // verus!
