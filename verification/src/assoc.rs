//! Text-to-text tables kept as lists of pairs.

use crate::text;
use vstd::prelude::*;

verus! {

/// The table that a list of pairs stands for.
pub open spec fn table_of(pairs: Seq<(String, String)>) -> Map<Seq<char>, Seq<char>>
    decreases pairs.len(),
{
    if pairs.len() == 0 {
        Map::empty()
    } else {
        table_of(pairs.drop_last()).insert(pairs.last().0@, pairs.last().1@)
    }
}

/// No key occurs twice.
pub open spec fn unique_keys(pairs: Seq<(String, String)>) -> bool {
    forall|i: int, j: int|
        0 <= i < pairs.len() && 0 <= j < pairs.len() && i != j ==> (#[trigger] pairs[i]).0@ != (
        #[trigger] pairs[j]).0@
}

/// What a list without repeated keys says of a key is what the table says.
pub proof fn table_is_exact(pairs: Seq<(String, String)>)
    requires
        unique_keys(pairs),
    ensures
        forall|i: int|
            0 <= i < pairs.len() ==> table_of(pairs).contains_pair(
                (#[trigger] pairs[i]).0@,
                pairs[i].1@,
            ),
        forall|k: Seq<char>| #[trigger]
            table_of(pairs).contains_key(k) ==> exists|i: int|
                0 <= i < pairs.len() && (#[trigger] pairs[i]).0@ == k,
    decreases pairs.len(),
{
    if pairs.len() > 0 {
        let front = pairs.drop_last();
        assert forall|i: int, j: int|
            0 <= i < front.len() && 0 <= j < front.len() && i != j implies (#[trigger] front[i]).0@
            != (#[trigger] front[j]).0@ by {
            assert(pairs[i].0@ != pairs[j].0@);
        }
        table_is_exact(front);
        assert forall|i: int| 0 <= i < pairs.len() implies table_of(pairs).contains_pair(
            (#[trigger] pairs[i]).0@,
            pairs[i].1@,
        ) by {
            if i < front.len() {
                assert(front[i] == pairs[i]);
                assert(pairs[i].0@ != pairs[front.len() as int].0@);
            }
        }
        assert forall|k: Seq<char>| #[trigger] table_of(pairs).contains_key(k) implies exists|
            i: int,
        |
            0 <= i < pairs.len() && (#[trigger] pairs[i]).0@ == k by {
            if k == pairs.last().0@ {
                assert(pairs[pairs.len() - 1].0@ == k);
            } else {
                assert(table_of(front).contains_key(k));
                let i = choose|i: int| 0 <= i < front.len() && (#[trigger] front[i]).0@ == k;
                assert(pairs[i] == front[i]);
            }
        }
    }
}

/// The position of a key.
pub fn find_key(pairs: &[(String, String)], key: &str) -> (at: Option<usize>)
    requires
        unique_keys(pairs@),
    ensures
        match at {
            Some(i) => {
                &&& i < pairs@.len()
                &&& pairs@[i as int].0@ == key@
                &&& table_of(pairs@).contains_pair(key@, pairs@[i as int].1@)
            },
            None => !table_of(pairs@).contains_key(key@),
        },
{
    proof {
        table_is_exact(pairs@);
    }
    let mut i: usize = 0;
    while i < pairs.len()
        invariant
            i <= pairs@.len(),
            forall|j: int|
                0 <= j < pairs@.len() ==> table_of(pairs@).contains_pair(
                    (#[trigger] pairs@[j]).0@,
                    pairs@[j].1@,
                ),
            forall|j: int| 0 <= j < i ==> (#[trigger] pairs@[j]).0@ != key@,
        decreases pairs@.len() - i,
    {
        if text::text_eq(pairs[i].0.as_str(), key) {
            return Some(i);
        }
        i = i + 1;
    }
    None
}

/// Sets the value of a key, new or known.
pub fn put(pairs: &mut Vec<(String, String)>, key: String, value: String)
    requires
        unique_keys(old(pairs)@),
    ensures
        unique_keys(final(pairs)@),
        table_of(final(pairs)@) == table_of(old(pairs)@).insert(key@, value@),
{
    let ghost was = pairs@;
    match find_key(pairs.as_slice(), key.as_str()) {
        Some(i) => {
            let ghost (k, v) = (key@, value@);
            pairs.set(i, (key, value));
            proof {
                table_is_exact(was);
                assert forall|a: int, b: int|
                    0 <= a < pairs@.len() && 0 <= b < pairs@.len() && a != b implies (
                #[trigger] pairs@[a]).0@ != (#[trigger] pairs@[b]).0@ by {
                    assert(was[a].0@ != was[b].0@);
                }
                table_is_exact(pairs@);
                let now = table_of(pairs@);
                let want = table_of(was).insert(k, v);
                assert forall|x: Seq<char>| #[trigger] now.contains_key(x) <==> want.contains_key(
                    x,
                ) by {
                    if now.contains_key(x) {
                        let a = choose|a: int|
                            0 <= a < pairs@.len() && (#[trigger] pairs@[a]).0@ == x;
                        assert(was[a].0@ == x || a == i);
                    }
                    if want.contains_key(x) && x != k {
                        let a = choose|a: int| 0 <= a < was.len() && (#[trigger] was[a]).0@ == x;
                        assert(pairs@[a] == was[a]);
                    }
                    if x == k {
                        assert(pairs@[i as int].0@ == k);
                    }
                }
                assert forall|x: Seq<char>| #[trigger] now.contains_key(x) implies now[x] == want[x] by {
                    let a = choose|a: int| 0 <= a < pairs@.len() && (#[trigger] pairs@[a]).0@ == x;
                    assert(now.contains_pair(pairs@[a].0@, pairs@[a].1@));
                    if a != i {
                        assert(was[a] == pairs@[a]);
                        assert(was[a].0@ != was[i as int].0@);
                        assert(table_of(was).contains_pair(was[a].0@, was[a].1@));
                    }
                }
                assert(now == want);
            }
        },
        None => {
            proof {
                table_is_exact(was);
            }
            let ghost k = key@;
            pairs.push((key, value));
            proof {
                assert forall|a: int, b: int|
                    0 <= a < pairs@.len() && 0 <= b < pairs@.len() && a != b implies (
                #[trigger] pairs@[a]).0@ != (#[trigger] pairs@[b]).0@ by {
                    if a < was.len() && b < was.len() {
                        assert(was[a].0@ != was[b].0@);
                    } else if a < was.len() {
                        assert(table_of(was).contains_pair(was[a].0@, was[a].1@));
                    } else {
                        assert(table_of(was).contains_pair(was[b].0@, was[b].1@));
                    }
                }
                assert(pairs@.drop_last() == was);
            }
        },
    }
}

} // verus!
