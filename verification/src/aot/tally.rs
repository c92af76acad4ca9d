//! Counting and collecting by code.

use crate::aot::keyed;
use vstd::prelude::*;

verus! {

/// How often each code has come up, in the order of the codes.
pub struct Counter {
    pub codes: Vec<u128>,
    pub counts: Vec<u64>,
}

/// In an ascending list a code has one place.
proof fn lemma_place(codes: Seq<u128>, i: int)
    requires
        keyed::ascending(codes),
        0 <= i < codes.len(),
    ensures
        codes.contains(codes[i]),
        codes.index_of(codes[i]) == i,
{
    let j = codes.index_of(codes[i]);
    assert(0 <= j < codes.len() && codes[j] == codes[i]);
    if i < j {
        assert(codes[i] < codes[j]);
    } else if j < i {
        assert(codes[j] < codes[i]);
    }
}

/// Where the codes stand once a new one has been put in.
proof fn lemma_places_after_insert(codes: Seq<u128>, at: int, code: u128, x: u128)
    requires
        keyed::ascending(codes),
        0 <= at <= codes.len(),
        forall|j: int| 0 <= j < at ==> #[trigger] codes[j] < code,
        forall|j: int| at <= j < codes.len() ==> code < #[trigger] codes[j],
    ensures
        keyed::ascending(codes.insert(at, code)),
        !codes.contains(code),
        codes.insert(at, code).contains(x) <==> codes.contains(x) || x == code,
        codes.insert(at, code).index_of(code) == at,
        codes.contains(x) ==> codes.insert(at, code).index_of(x) == if codes.index_of(x) < at {
            codes.index_of(x)
        } else {
            codes.index_of(x) + 1
        },
{
    let now = codes.insert(at, code);
    keyed::insert_code(codes, at, code);
    assert(now[at] == code);
    lemma_place(now, at);
    if codes.contains(x) {
        let i = codes.index_of(x);
        assert(codes[i] == x);
        let k = if i < at {
            i
        } else {
            i + 1
        };
        assert(now[k] == x);
        lemma_place(now, k);
    }
    if now.contains(x) && x != code {
        let k = now.index_of(x);
        if k < at {
            assert(codes[k] == x);
        } else {
            assert(codes[k - 1] == x);
        }
    }
    if codes.contains(code) {
        let i = codes.index_of(code);
        assert(codes[i] == code);
    }
}

impl Counter {
    /// The codes ascend, and each has come up.
    pub open spec fn wf(self) -> bool {
        &&& self.codes@.len() == self.counts@.len()
        &&& keyed::ascending(self.codes@)
        &&& forall|i: int| 0 <= i < self.counts@.len() ==> #[trigger] self.counts@[i] > 0
    }

    /// How often a code has come up.
    pub open spec fn count(self, code: u128) -> nat {
        if self.codes@.contains(code) {
            self.counts@[self.codes@.index_of(code)] as nat
        } else {
            0
        }
    }

    /// A counter of nothing.
    pub fn new() -> (c: Counter)
        ensures
            c.wf(),
            forall|x: u128| #[trigger] c.count(x) == 0,
    {
        Counter { codes: Vec::new(), counts: Vec::new() }
    }

    /// Counts a code.
    pub fn bump(&mut self, code: u128)
        requires
            old(self).wf(),
            old(self).count(code) < u64::MAX,
        ensures
            final(self).wf(),
            forall|x: u128| #[trigger]
                final(self).count(x) == old(self).count(x) + if x == code {
                    1nat
                } else {
                    0
                },
    {
        let ghost codes = self.codes@;
        let ghost counts = self.counts@;
        let (at, found) = keyed::find_code(self.codes.as_slice(), code);
        if found {
            proof {
                lemma_place(codes, at as int);
            }
            let n: u64 = self.counts[at];
            self.counts.set(at, n + 1);
            proof {
                assert forall|x: u128| #[trigger]
                    self.count(x) == old(self).count(x) + if x == code {
                        1nat
                    } else {
                        0
                    } by {
                    if codes.contains(x) {
                        let i = codes.index_of(x);
                        assert(codes[i] == x);
                        if x != code {
                            assert(i != at);
                        }
                    }
                }
            }
        } else {
            self.codes.insert(at, code);
            self.counts.insert(at, 1);
            proof {
                lemma_places_after_insert(codes, at as int, code, code);
                assert forall|x: u128| #[trigger]
                    self.count(x) == old(self).count(x) + if x == code {
                        1nat
                    } else {
                        0
                    } by {
                    lemma_places_after_insert(codes, at as int, code, x);
                }
            }
        }
    }

    /// The code at a place has come up as often as is noted there, and every code
    /// that has come up has a place.
    pub proof fn places_are_exact(self)
        requires
            self.wf(),
        ensures
            forall|i: int|
                0 <= i < self.codes@.len() ==> self.count(#[trigger] self.codes@[i])
                    == self.counts@[i],
            forall|x: u128| #[trigger] self.count(x) > 0 ==> self.codes@.contains(x),
    {
        assert forall|i: int| 0 <= i < self.codes@.len() implies self.count(
            #[trigger] self.codes@[i],
        ) == self.counts@[i] by {
            lemma_place(self.codes@, i);
        }
    }
}

/// What has been collected under each code, in the order of the codes.
pub struct Collector {
    pub codes: Vec<u128>,
    pub items: Vec<Vec<u32>>,
}

impl Collector {
    /// The codes ascend, and something has been collected under each.
    pub open spec fn wf(self) -> bool {
        &&& self.codes@.len() == self.items@.len()
        &&& keyed::ascending(self.codes@)
        &&& forall|i: int| 0 <= i < self.items@.len() ==> (#[trigger] self.items@[i])@.len() > 0
    }

    /// What has been collected under a code.
    pub open spec fn under(self, code: u128) -> Seq<u32> {
        if self.codes@.contains(code) {
            self.items@[self.codes@.index_of(code)]@
        } else {
            Seq::empty()
        }
    }

    /// A collection of nothing.
    pub fn new() -> (c: Collector)
        ensures
            c.wf(),
            forall|x: u128| (#[trigger] c.under(x)) == Seq::<u32>::empty(),
    {
        Collector { codes: Vec::new(), items: Vec::new() }
    }

    /// Collects an item under a code.
    pub fn collect(&mut self, code: u128, item: u32)
        requires
            old(self).wf(),
        ensures
            final(self).wf(),
            forall|x: u128| #[trigger]
                final(self).under(x) == if x == code {
                    old(self).under(x).push(item)
                } else {
                    old(self).under(x)
                },
    {
        let ghost codes = self.codes@;
        let ghost items = self.items@;
        let (at, found) = keyed::find_code(self.codes.as_slice(), code);
        if found {
            proof {
                lemma_place(codes, at as int);
            }
            let list = &mut self.items[at];
            list.push(item);
            proof {
                assert forall|x: u128| #[trigger]
                    self.under(x) == if x == code {
                        old(self).under(x).push(item)
                    } else {
                        old(self).under(x)
                    } by {
                    if codes.contains(x) {
                        let i = codes.index_of(x);
                        assert(codes[i] == x);
                        if x != code {
                            assert(i != at);
                        }
                    }
                }
            }
        } else {
            let mut list: Vec<u32> = Vec::new();
            list.push(item);
            self.codes.insert(at, code);
            self.items.insert(at, list);
            proof {
                lemma_places_after_insert(codes, at as int, code, code);
                assert(list@ == Seq::<u32>::empty().push(item));
                assert forall|x: u128| #[trigger]
                    self.under(x) == if x == code {
                        old(self).under(x).push(item)
                    } else {
                        old(self).under(x)
                    } by {
                    lemma_places_after_insert(codes, at as int, code, x);
                }
                assert forall|i: int| 0 <= i < self.items@.len() implies (
                #[trigger] self.items@[i])@.len() > 0 by {
                    if i < at {
                        assert(self.items@[i] == items[i]);
                    } else if i > at {
                        assert(self.items@[i] == items[i - 1]);
                    }
                }
            }
        }
    }

    /// What stands at a place has been collected under its code, and every code
    /// under which something has been collected has a place.
    pub proof fn places_are_exact(self)
        requires
            self.wf(),
        ensures
            forall|i: int|
                0 <= i < self.codes@.len() ==> self.under(#[trigger] self.codes@[i])
                    == self.items@[i]@,
            forall|x: u128| (#[trigger] self.under(x)).len() > 0 ==> self.codes@.contains(x),
    {
        assert forall|i: int| 0 <= i < self.codes@.len() implies self.under(
            #[trigger] self.codes@[i],
        ) == self.items@[i]@ by {
            lemma_place(self.codes@, i);
        }
    }
}

} // verus!
