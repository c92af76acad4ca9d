//! The device cache of expert tensors: least-recently-used replacement with
//! pinned entries.

use crate::quant::QuantFormat;
use std::sync::Arc;
use vstd::prelude::*;

verus! {

/// Which tensor of an expert a cached buffer holds.
#[derive(Debug, Clone, Copy, PartialEq, Eq, Hash, Structural)]
pub enum ExpertTensorKind {
    Gate,
    Up,
    Down,
    GateWeight,
    GateScale,
    UpWeight,
    UpScale,
    DownWeight,
    DownScale,
    SharedGateWeight,
    SharedGateScale,
    SharedUpWeight,
    SharedUpScale,
    SharedDownWeight,
    SharedDownScale,
}

/// What identifies a cached tensor.
#[derive(Debug, Clone, Copy, PartialEq, Eq, Hash, Structural)]
pub struct ExpertCacheKey {
    pub layer_id: usize,
    pub expert_id: usize,
    pub tensor_kind: ExpertTensorKind,
    pub quant_format: QuantFormat,
}

/// How long a cached tensor stays.
#[derive(Debug, Clone, Copy, PartialEq, Eq, Structural)]
pub enum ResidencyClass {
    RoutedDynamic,
    SharedPinned,
}

/// A cached tensor: its buffer, how many bytes that holds, and how long it stays.
pub struct CacheEntry<B> {
    pub key: ExpertCacheKey,
    pub buf: Arc<B>,
    pub size: usize,
    pub residency: ResidencyClass,
}

impl<B> CacheEntry<B> {
    /// The entry is never evicted.
    pub open spec fn is_pinned(self) -> bool {
        self.residency == ResidencyClass::SharedPinned
    }
}

/// The event counters of a cache.
#[derive(Debug, Clone, Copy, PartialEq, Eq, Structural)]
pub struct CacheCounters {
    pub hit: usize,
    pub miss: usize,
    pub eviction: usize,
    pub insert_attempt: usize,
    pub insert_accept: usize,
    pub insert_bypass: usize,
    pub oversized_tensor_bypass: usize,
    pub oversized_expert_bypass: usize,
    pub self_eviction_risk: usize,
}

/// The counters of a cache in which nothing has happened yet.
pub open spec fn no_events() -> CacheCounters {
    CacheCounters {
        hit: 0,
        miss: 0,
        eviction: 0,
        insert_attempt: 0,
        insert_accept: 0,
        insert_bypass: 0,
        oversized_tensor_bypass: 0,
        oversized_expert_bypass: 0,
        self_eviction_risk: 0,
    }
}

/// A cache of device buffers `B`, limited to `capacity_bytes`.
///
/// The entries are kept from the least to the most recently used. Pinned
/// entries are never evicted; the shared experts' tensors are pinned.
pub struct CudaExpertCache<B> {
    pub capacity_bytes: usize,
    pub resident_bytes: usize,
    pub pinned_bytes: usize,
    pub hit_count: usize,
    pub miss_count: usize,
    pub eviction_count: usize,
    pub bypass_oversized_experts: bool,
    pub cache_insert_attempt_count: usize,
    pub cache_insert_accept_count: usize,
    pub cache_insert_bypass_count: usize,
    pub oversized_tensor_bypass_count: usize,
    pub oversized_expert_bypass_count: usize,
    pub self_eviction_risk_count: usize,
    pub entries: Vec<CacheEntry<B>>,
}

// ---------------------------------------------------------------------------
// Model
// ---------------------------------------------------------------------------

/// The bytes that an entry adds to a total: all of them, or only those of a
/// pinned entry.
pub open spec fn entry_bytes<B>(e: CacheEntry<B>, pinned_only: bool) -> nat {
    if pinned_only && !e.is_pinned() {
        0
    } else {
        e.size as nat
    }
}

/// The bytes of all entries, or of the pinned ones.
pub open spec fn total_bytes<B>(s: Seq<CacheEntry<B>>, pinned_only: bool) -> nat
    decreases s.len(),
{
    if s.len() == 0 {
        0
    } else {
        total_bytes(s.drop_last(), pinned_only) + entry_bytes(s.last(), pinned_only)
    }
}

/// No key occurs twice.
pub open spec fn distinct_keys<B>(s: Seq<CacheEntry<B>>) -> bool {
    forall|i: int, j: int|
        0 <= i < j < s.len() ==> (#[trigger] s[i]).key != (#[trigger] s[j]).key
}

/// The position of `key`, counted from `from`.
pub open spec fn position_from<B>(s: Seq<CacheEntry<B>>, key: ExpertCacheKey, from: int) -> Option<
    int,
>
    decreases s.len() - from,
{
    if from < 0 || from >= s.len() {
        None
    } else if s[from].key == key {
        Some(from)
    } else {
        position_from(s, key, from + 1)
    }
}

/// The position of `key`.
pub open spec fn position<B>(s: Seq<CacheEntry<B>>, key: ExpertCacheKey) -> Option<int> {
    position_from(s, key, 0)
}

/// The position of the first entry, at or after `from`, that is not pinned.
pub open spec fn victim_from<B>(s: Seq<CacheEntry<B>>, from: int) -> Option<int>
    decreases s.len() - from,
{
    if from < 0 || from >= s.len() {
        None
    } else if !s[from].is_pinned() {
        Some(from)
    } else {
        victim_from(s, from + 1)
    }
}

/// The position of the entry to be evicted next: the least recently used one
/// that is not pinned.
pub open spec fn victim<B>(s: Seq<CacheEntry<B>>) -> Option<int> {
    victim_from(s, 0)
}

/// `s` without the entry of `key`.
pub open spec fn without<B>(s: Seq<CacheEntry<B>>, key: ExpertCacheKey) -> Seq<CacheEntry<B>> {
    match position(s, key) {
        Some(i) => s.remove(i),
        None => s,
    }
}

/// `s` with the entry of `key` made the most recently used.
pub open spec fn touched<B>(s: Seq<CacheEntry<B>>, key: ExpertCacheKey) -> Seq<CacheEntry<B>> {
    match position(s, key) {
        Some(i) => s.remove(i).push(s[i]),
        None => s,
    }
}

/// `s` after evicting, one after the other, what must go so that `size` more
/// bytes fit into `capacity`. Stops where only pinned entries are left.
pub open spec fn make_room<B>(s: Seq<CacheEntry<B>>, size: nat, capacity: nat) -> Seq<CacheEntry<B>>
    decreases s.len(),
{
    if total_bytes(s, false) + size <= capacity {
        s
    } else {
        match victim(s) {
            Some(i) => if 0 <= i < s.len() {
                make_room(s.remove(i), size, capacity)
            } else {
                s
            },
            None => s,
        }
    }
}

/// The residency that an inserted entry of `key` gets: a key stays pinned.
pub open spec fn residency_of<B>(s: Seq<CacheEntry<B>>, key: ExpertCacheKey) -> ResidencyClass {
    match position(s, key) {
        Some(i) => s[i].residency,
        None => ResidencyClass::RoutedDynamic,
    }
}

impl<B> CudaExpertCache<B> {
    /// The event counters.
    pub open spec fn counters(self) -> CacheCounters {
        CacheCounters {
            hit: self.hit_count,
            miss: self.miss_count,
            eviction: self.eviction_count,
            insert_attempt: self.cache_insert_attempt_count,
            insert_accept: self.cache_insert_accept_count,
            insert_bypass: self.cache_insert_bypass_count,
            oversized_tensor_bypass: self.oversized_tensor_bypass_count,
            oversized_expert_bypass: self.oversized_expert_bypass_count,
            self_eviction_risk: self.self_eviction_risk_count,
        }
    }

    /// No tensor is cached twice, and `resident_bytes` is what is cached.
    pub open spec fn wf(self) -> bool {
        &&& distinct_keys(self.entries@)
        &&& self.resident_bytes == total_bytes(self.entries@, false)
    }

    /// `pinned_bytes` is what the pinned entries hold.
    pub open spec fn pins_counted(self) -> bool {
        self.pinned_bytes == total_bytes(self.entries@, true)
    }

    /// The limits are as they were.
    pub open spec fn same_limits(self, other: Self) -> bool {
        &&& self.capacity_bytes == other.capacity_bytes
        &&& self.bypass_oversized_experts == other.bypass_oversized_experts
    }

    /// A tensor of `size` bytes is larger than the cache, or fits into it beside
    /// the pinned entries other than that of `key`.
    pub open spec fn insert_allowed(self, key: ExpertCacheKey, size: usize) -> bool {
        size <= self.capacity_bytes ==> total_bytes(without(self.entries@, key), true) + size
            <= self.capacity_bytes
    }

    /// The tensor of `key` is cached.
    pub open spec fn holds(self, key: ExpertCacheKey) -> bool {
        position(self.entries@, key) is Some
    }
}

/// `after` is `before` with the tensor of `key` inserted: it becomes the most
/// recently used, what must make room goes, the least recently used first, and
/// what is cached does not exceed the capacity. A tensor larger than the cache
/// changes nothing but the counters.
pub open spec fn inserted<B>(
    before: CudaExpertCache<B>,
    after: CudaExpertCache<B>,
    key: ExpertCacheKey,
    handle: Arc<B>,
    size: usize,
) -> bool {
    &&& after.same_limits(before)
    &&& after.pinned_bytes == before.pinned_bytes
    &&& if size > before.capacity_bytes {
        &&& after.entries@ == before.entries@
        &&& after.counters() == (CacheCounters {
            insert_attempt: (before.cache_insert_attempt_count + 1) as usize,
            insert_bypass: (before.cache_insert_bypass_count + 1) as usize,
            oversized_tensor_bypass: (before.oversized_tensor_bypass_count + 1) as usize,
            ..before.counters()
        })
    } else {
        let rest = without(before.entries@, key);
        let kept = make_room(rest, size as nat, before.capacity_bytes as nat);
        &&& after.entries@ == kept.push(
            CacheEntry { key, buf: handle, size, residency: residency_of(before.entries@, key) },
        )
        &&& after.resident_bytes <= after.capacity_bytes
        &&& kept.len() <= rest.len()
        &&& after.counters() == (CacheCounters {
            insert_attempt: (before.cache_insert_attempt_count + 1) as usize,
            insert_accept: (before.cache_insert_accept_count + 1) as usize,
            eviction: (before.eviction_count + (rest.len() - kept.len())) as usize,
            ..before.counters()
        })
    }
}

// ---------------------------------------------------------------------------
// Lemmas on the model
// ---------------------------------------------------------------------------

proof fn lemma_position_from<B>(s: Seq<CacheEntry<B>>, key: ExpertCacheKey, from: int)
    requires
        0 <= from,
    ensures
        match position_from(s, key, from) {
            Some(i) => {
                &&& from <= i < s.len()
                &&& s[i].key == key
                &&& forall|j: int| from <= j < i ==> (#[trigger] s[j]).key != key
            },
            None => forall|j: int| from <= j < s.len() ==> (#[trigger] s[j]).key != key,
        },
    decreases s.len() - from,
{
    if from < s.len() && s[from].key != key {
        lemma_position_from(s, key, from + 1);
    }
}

/// Where `position` answers, it answers with the one entry of the key.
pub proof fn position_is_exact<B>(s: Seq<CacheEntry<B>>, key: ExpertCacheKey)
    requires
        distinct_keys(s),
    ensures
        match position(s, key) {
            Some(i) => {
                &&& 0 <= i < s.len()
                &&& s[i].key == key
                &&& forall|j: int| 0 <= j < s.len() && j != i ==> (#[trigger] s[j]).key != key
            },
            None => forall|j: int| 0 <= j < s.len() ==> (#[trigger] s[j]).key != key,
        },
{
    lemma_position_from(s, key, 0);
    match position(s, key) {
        Some(i) => {
            assert forall|j: int| 0 <= j < s.len() && j != i implies (#[trigger] s[j]).key
                != key by {
                if j > i {
                    assert(s[i].key != s[j].key);
                }
            }
        },
        None => {},
    }
}

pub(crate) proof fn lemma_position_at<B>(s: Seq<CacheEntry<B>>, i: int)
    requires
        distinct_keys(s),
        0 <= i < s.len(),
    ensures
        position(s, s[i].key) == Some(i),
{
    position_is_exact(s, s[i].key);
}

proof fn lemma_victim_from<B>(s: Seq<CacheEntry<B>>, from: int)
    requires
        0 <= from,
    ensures
        match victim_from(s, from) {
            Some(i) => {
                &&& from <= i < s.len()
                &&& !s[i].is_pinned()
                &&& forall|j: int| from <= j < i ==> (#[trigger] s[j]).is_pinned()
            },
            None => forall|j: int| from <= j < s.len() ==> (#[trigger] s[j]).is_pinned(),
        },
    decreases s.len() - from,
{
    if from < s.len() && s[from].is_pinned() {
        lemma_victim_from(s, from + 1);
    }
}

/// The entry evicted next is not pinned, and every entry used before it is.
pub proof fn victim_is_first_unpinned<B>(s: Seq<CacheEntry<B>>)
    ensures
        match victim(s) {
            Some(i) => {
                &&& 0 <= i < s.len()
                &&& !s[i].is_pinned()
                &&& forall|j: int| 0 <= j < i ==> (#[trigger] s[j]).is_pinned()
            },
            None => forall|j: int| 0 <= j < s.len() ==> (#[trigger] s[j]).is_pinned(),
        },
{
    lemma_victim_from(s, 0);
}

pub(crate) proof fn lemma_total_push<B>(s: Seq<CacheEntry<B>>, e: CacheEntry<B>, pinned_only: bool)
    ensures
        total_bytes(s.push(e), pinned_only) == total_bytes(s, pinned_only) + entry_bytes(
            e,
            pinned_only,
        ),
{
    assert(s.push(e).drop_last() == s);
}

pub(crate) proof fn lemma_total_remove<B>(s: Seq<CacheEntry<B>>, i: int, pinned_only: bool)
    requires
        0 <= i < s.len(),
    ensures
        total_bytes(s.remove(i), pinned_only) + entry_bytes(s[i], pinned_only) == total_bytes(
            s,
            pinned_only,
        ),
    decreases s.len(),
{
    if i == s.len() - 1 {
        assert(s.remove(i) == s.drop_last());
    } else {
        lemma_total_remove(s.drop_last(), i, pinned_only);
        assert(s.remove(i).drop_last() == s.drop_last().remove(i));
        assert(s.remove(i).last() == s.last());
    }
}

pub(crate) proof fn lemma_total_all_pinned<B>(s: Seq<CacheEntry<B>>)
    requires
        forall|j: int| 0 <= j < s.len() ==> (#[trigger] s[j]).is_pinned(),
    ensures
        total_bytes(s, true) == total_bytes(s, false),
    decreases s.len(),
{
    if s.len() > 0 {
        assert(s[s.len() - 1].is_pinned());
        assert forall|j: int| 0 <= j < s.drop_last().len() implies (#[trigger] s.drop_last()[j]).is_pinned() by {
            assert(s[j].is_pinned());
        }
        lemma_total_all_pinned(s.drop_last());
    }
}

proof fn lemma_pinned_at_most<B>(s: Seq<CacheEntry<B>>)
    ensures
        total_bytes(s, true) <= total_bytes(s, false),
    decreases s.len(),
{
    if s.len() > 0 {
        lemma_pinned_at_most(s.drop_last());
    }
}

pub(crate) proof fn lemma_distinct_remove<B>(s: Seq<CacheEntry<B>>, i: int)
    requires
        distinct_keys(s),
        0 <= i < s.len(),
    ensures
        distinct_keys(s.remove(i)),
        forall|j: int| 0 <= j < s.remove(i).len() ==> (#[trigger] s.remove(i)[j]).key != s[i].key,
{
    let r = s.remove(i);
    assert forall|a: int, b: int| 0 <= a < b < r.len() implies (#[trigger] r[a]).key != (
    #[trigger] r[b]).key by {
        let a2 = if a < i {
            a
        } else {
            a + 1
        };
        let b2 = if b < i {
            b
        } else {
            b + 1
        };
        assert(s[a2].key != s[b2].key);
    }
    assert forall|j: int| 0 <= j < r.len() implies (#[trigger] r[j]).key != s[i].key by {
        if j < i {
            assert(s[j].key != s[i].key);
        } else {
            assert(s[i].key != s[j + 1].key);
        }
    }
}

proof fn lemma_distinct_push<B>(s: Seq<CacheEntry<B>>, e: CacheEntry<B>)
    requires
        distinct_keys(s),
        forall|j: int| 0 <= j < s.len() ==> (#[trigger] s[j]).key != e.key,
    ensures
        distinct_keys(s.push(e)),
{
    let r = s.push(e);
    assert forall|a: int, b: int| 0 <= a < b < r.len() implies (#[trigger] r[a]).key != (
    #[trigger] r[b]).key by {
        if b < s.len() {
            assert(s[a].key != s[b].key);
        }
    }
}

/// What `make_room` keeps: distinct keys, none that was not there before, all
/// pinned entries, and no more bytes than before. It makes the room wherever the
/// pinned entries leave it.
pub(crate) proof fn lemma_make_room<B>(s: Seq<CacheEntry<B>>, size: nat, capacity: nat, key: ExpertCacheKey)
    requires
        distinct_keys(s),
        forall|j: int| 0 <= j < s.len() ==> (#[trigger] s[j]).key != key,
    ensures
        distinct_keys(make_room(s, size, capacity)),
        make_room(s, size, capacity).len() <= s.len(),
        forall|j: int|
            0 <= j < make_room(s, size, capacity).len() ==> (#[trigger] make_room(
                s,
                size,
                capacity,
            )[j]).key != key,
        total_bytes(make_room(s, size, capacity), true) == total_bytes(s, true),
        total_bytes(make_room(s, size, capacity), false) <= total_bytes(s, false),
        total_bytes(s, true) + size <= capacity ==> total_bytes(
            make_room(s, size, capacity),
            false,
        ) + size <= capacity,
    decreases s.len(),
{
    if total_bytes(s, false) + size > capacity {
        victim_is_first_unpinned(s);
        match victim(s) {
            Some(i) => {
                lemma_total_remove(s, i, false);
                lemma_total_remove(s, i, true);
                lemma_distinct_remove(s, i);
                assert forall|j: int| 0 <= j < s.remove(i).len() implies (#[trigger] s.remove(
                    i,
                )[j]).key != key by {
                    if j < i {
                        assert(s[j].key != key);
                    } else {
                        assert(s[j + 1].key != key);
                    }
                }
                lemma_make_room(s.remove(i), size, capacity, key);
            },
            None => {
                lemma_total_all_pinned(s);
            },
        }
    }
}

/// A pinned entry stays, whatever room is made.
pub proof fn pinned_survive<B>(s: Seq<CacheEntry<B>>, size: nat, capacity: nat, e: CacheEntry<B>)
    requires
        s.contains(e),
        e.is_pinned(),
    ensures
        make_room(s, size, capacity).contains(e),
    decreases s.len(),
{
    if total_bytes(s, false) + size > capacity {
        victim_is_first_unpinned(s);
        match victim(s) {
            Some(i) => {
                let k = choose|k: int| 0 <= k < s.len() && s[k] == e;
                let r = s.remove(i);
                assert(r[if k < i {
                    k
                } else {
                    k - 1
                }] == e);
                pinned_survive(r, size, capacity, e);
            },
            None => {},
        }
    }
}

/// The less recently used go first: where an entry that is not pinned stays, so
/// do all entries used after it.
pub proof fn eviction_respects_recency<B>(
    s: Seq<CacheEntry<B>>,
    size: nat,
    capacity: nat,
    i: int,
    j: int,
)
    requires
        distinct_keys(s),
        0 <= i < j < s.len(),
        !s[i].is_pinned(),
        make_room(s, size, capacity).contains(s[i]),
    ensures
        make_room(s, size, capacity).contains(s[j]),
    decreases s.len(),
{
    if total_bytes(s, false) + size > capacity {
        victim_is_first_unpinned(s);
        match victim(s) {
            Some(v) => {
                let r = s.remove(v);
                lemma_distinct_remove(s, v);
                assert(v <= i);
                if v == i {
                    make_room_is_subset(r, size, capacity, s[i]);
                    let k = choose|k: int| 0 <= k < r.len() && r[k] == s[i];
                    assert(r[k].key != s[i].key);
                } else {
                    assert(r[i - 1] == s[i]);
                    assert(r[j - 1] == s[j]);
                    eviction_respects_recency(r, size, capacity, i - 1, j - 1);
                }
            },
            None => {
                assert(s[i].is_pinned());
            },
        }
    } else {
        assert(s.contains(s[j]));
    }
}

/// Making room adds nothing.
pub proof fn make_room_is_subset<B>(
    s: Seq<CacheEntry<B>>,
    size: nat,
    capacity: nat,
    e: CacheEntry<B>,
)
    requires
        make_room(s, size, capacity).contains(e),
    ensures
        s.contains(e),
    decreases s.len(),
{
    if total_bytes(s, false) + size > capacity {
        victim_is_first_unpinned(s);
        match victim(s) {
            Some(v) => {
                let r = s.remove(v);
                make_room_is_subset(r, size, capacity, e);
                let k = choose|k: int| 0 <= k < r.len() && r[k] == e;
                assert(s[if k < v {
                    k
                } else {
                    k + 1
                }] == e);
            },
            None => {},
        }
    }
}

/// Where the bytes fit already, nothing is evicted.
pub proof fn no_needless_eviction<B>(s: Seq<CacheEntry<B>>, size: nat, capacity: nat)
    requires
        total_bytes(s, false) + size <= capacity,
    ensures
        make_room(s, size, capacity) == s,
{
}

// ---------------------------------------------------------------------------
// Operations
// ---------------------------------------------------------------------------

impl<B> CudaExpertCache<B> {
    /// An empty cache.
    pub fn new(capacity_bytes: usize) -> (c: CudaExpertCache<B>)
        ensures
            c.wf(),
            c.pins_counted(),
            c.capacity_bytes == capacity_bytes,
            !c.bypass_oversized_experts,
            c.resident_bytes == 0,
            c.pinned_bytes == 0,
            c.entries@ == Seq::<CacheEntry<B>>::empty(),
            c.counters() == no_events(),
    {
        CudaExpertCache {
            capacity_bytes,
            resident_bytes: 0,
            pinned_bytes: 0,
            hit_count: 0,
            miss_count: 0,
            eviction_count: 0,
            bypass_oversized_experts: false,
            cache_insert_attempt_count: 0,
            cache_insert_accept_count: 0,
            cache_insert_bypass_count: 0,
            oversized_tensor_bypass_count: 0,
            oversized_expert_bypass_count: 0,
            self_eviction_risk_count: 0,
            entries: Vec::new(),
        }
    }

    fn position_of(&self, key: &ExpertCacheKey) -> (at: Option<usize>)
        ensures
            match at {
                Some(i) => position(self.entries@, *key) == Some(i as int) && i
                    < self.entries@.len(),
                None => position(self.entries@, *key) is None,
            },
    {
        let mut i: usize = 0;
        while i < self.entries.len()
            invariant
                i <= self.entries@.len(),
                position(self.entries@, *key) == position_from(self.entries@, *key, i as int),
            decreases self.entries@.len() - i,
        {
            if self.entries[i].key == *key {
                return Some(i);
            }
            i = i + 1;
        }
        None
    }

    /// The buffer of `key`, which becomes the most recently used.
    pub fn get(&mut self, key: &ExpertCacheKey) -> (buf: Option<Arc<B>>)
        requires
            old(self).wf(),
            old(self).hit_count < usize::MAX,
            old(self).miss_count < usize::MAX,
        ensures
            final(self).wf(),
            final(self).same_limits(*old(self)),
            final(self).resident_bytes == old(self).resident_bytes,
            final(self).pinned_bytes == old(self).pinned_bytes,
            old(self).pins_counted() ==> final(self).pins_counted(),
            final(self).entries@ == touched(old(self).entries@, *key),
            match position(old(self).entries@, *key) {
                Some(i) => {
                    &&& buf == Some(old(self).entries@[i].buf)
                    &&& final(self).counters() == (CacheCounters {
                        hit: (old(self).hit_count + 1) as usize,
                        ..old(self).counters()
                    })
                },
                None => {
                    &&& buf is None
                    &&& final(self).counters() == (CacheCounters {
                        miss: (old(self).miss_count + 1) as usize,
                        ..old(self).counters()
                    })
                },
            },
    {
        match self.position_of(key) {
            Some(i) => {
                let buf = self.entries[i].buf.clone();
                self.hit_count = self.hit_count + 1;
                self.touch(key);
                Some(buf)
            },
            None => {
                self.miss_count = self.miss_count + 1;
                None
            },
        }
    }

    /// Makes the entry of `key`, if there is one, the most recently used.
    pub fn touch(&mut self, key: &ExpertCacheKey)
        requires
            old(self).wf(),
        ensures
            final(self).wf(),
            final(self).same_limits(*old(self)),
            final(self).resident_bytes == old(self).resident_bytes,
            final(self).pinned_bytes == old(self).pinned_bytes,
            old(self).pins_counted() ==> final(self).pins_counted(),
            final(self).counters() == old(self).counters(),
            final(self).entries@ == touched(old(self).entries@, *key),
    {
        match self.position_of(key) {
            Some(i) => {
                let ghost before = self.entries@;
                proof {
                    lemma_total_remove(before, i as int, false);
                    lemma_total_remove(before, i as int, true);
                    lemma_distinct_remove(before, i as int);
                    lemma_total_push(before.remove(i as int), before[i as int], false);
                    lemma_total_push(before.remove(i as int), before[i as int], true);
                    lemma_distinct_push(before.remove(i as int), before[i as int]);
                }
                let entry = self.entries.remove(i);
                self.entries.push(entry);
            },
            None => {},
        }
    }

    /// Evicts the least recently used entry that is not pinned.
    pub fn evict_lru(&mut self) -> (gone: Option<(ExpertCacheKey, Arc<B>)>)
        requires
            old(self).wf(),
            old(self).eviction_count < usize::MAX,
        ensures
            final(self).wf(),
            final(self).same_limits(*old(self)),
            final(self).pinned_bytes == old(self).pinned_bytes,
            old(self).pins_counted() ==> final(self).pins_counted(),
            match victim(old(self).entries@) {
                Some(i) => {
                    &&& gone == Some((old(self).entries@[i].key, old(self).entries@[i].buf))
                    &&& final(self).entries@ == old(self).entries@.remove(i)
                    &&& final(self).counters() == (CacheCounters {
                        eviction: (old(self).eviction_count + 1) as usize,
                        ..old(self).counters()
                    })
                },
                None => {
                    &&& gone is None
                    &&& final(self).entries@ == old(self).entries@
                    &&& final(self).counters() == old(self).counters()
                },
            },
    {
        let mut i: usize = 0;
        while i < self.entries.len()
            invariant
                i <= self.entries@.len(),
                *self == *old(self),
                old(self).wf(),
                old(self).eviction_count < usize::MAX,
                victim(self.entries@) == victim_from(self.entries@, i as int),
            decreases self.entries@.len() - i,
        {
            let evictable = match self.entries[i].residency {
                ResidencyClass::RoutedDynamic => true,
                ResidencyClass::SharedPinned => false,
            };
            if evictable {
                proof {
                    lemma_total_remove(self.entries@, i as int, false);
                    lemma_total_remove(self.entries@, i as int, true);
                    lemma_distinct_remove(self.entries@, i as int);
                }
                let entry = self.entries.remove(i);
                self.resident_bytes = self.resident_bytes - entry.size;
                self.eviction_count = self.eviction_count + 1;
                return Some((entry.key, entry.buf));
            }
            i = i + 1;
        }
        None
    }

    /// Evicts until `size` more bytes fit, or only pinned entries are left.
    fn free_up(&mut self, size: usize)
        requires
            old(self).wf(),
            old(self).resident_bytes + size <= usize::MAX,
            old(self).eviction_count + old(self).entries@.len() <= usize::MAX,
        ensures
            final(self).wf(),
            final(self).same_limits(*old(self)),
            final(self).pinned_bytes == old(self).pinned_bytes,
            old(self).pins_counted() ==> final(self).pins_counted(),
            final(self).resident_bytes <= old(self).resident_bytes,
            final(self).entries@ == make_room(
                old(self).entries@,
                size as nat,
                old(self).capacity_bytes as nat,
            ),
            final(self).entries@.len() <= old(self).entries@.len(),
            final(self).counters() == (CacheCounters {
                eviction: (old(self).eviction_count + (old(self).entries@.len()
                    - final(self).entries@.len())) as usize,
                ..old(self).counters()
            }),
    {
        while self.resident_bytes + size > self.capacity_bytes && self.entries.len() > 0
            invariant
                self.wf(),
                self.same_limits(*old(self)),
                self.pinned_bytes == old(self).pinned_bytes,
                old(self).pins_counted() ==> self.pins_counted(),
                self.resident_bytes <= old(self).resident_bytes,
                old(self).resident_bytes + size <= usize::MAX,
                self.entries@.len() <= old(self).entries@.len(),
                old(self).eviction_count + old(self).entries@.len() <= usize::MAX,
                self.counters() == (CacheCounters {
                    eviction: (old(self).eviction_count + (old(self).entries@.len()
                        - self.entries@.len())) as usize,
                    ..old(self).counters()
                }),
                make_room(self.entries@, size as nat, self.capacity_bytes as nat) == make_room(
                    old(self).entries@,
                    size as nat,
                    old(self).capacity_bytes as nat,
                ),
            ensures
                self.wf(),
                self.entries@ == make_room(
                    old(self).entries@,
                    size as nat,
                    old(self).capacity_bytes as nat,
                ),
            decreases self.entries@.len(),
        {
            proof {
                victim_is_first_unpinned(self.entries@);
                match victim(self.entries@) {
                    Some(i) => {
                        lemma_total_remove(self.entries@, i, false);
                    },
                    None => {},
                }
            }
            if self.evict_lru().is_none() {
                break;
            }
        }
    }

    /// Caches `buf`, of `size` bytes, under `key`, as the most recently used.
    /// What must make room goes, the least recently used first. A buffer larger
    /// than the cache is handed back and not cached.
    pub fn insert(&mut self, key: ExpertCacheKey, buf: B, size: usize) -> (handle: Arc<B>)
        requires
            old(self).wf(),
            old(self).insert_allowed(key, size),
            old(self).resident_bytes + size <= usize::MAX,
            old(self).cache_insert_attempt_count < usize::MAX,
            old(self).cache_insert_accept_count < usize::MAX,
            old(self).cache_insert_bypass_count < usize::MAX,
            old(self).oversized_tensor_bypass_count < usize::MAX,
            old(self).eviction_count + old(self).entries@.len() <= usize::MAX,
        ensures
            *handle == buf,
            final(self).wf(),
            inserted(*old(self), *final(self), key, handle, size),
            old(self).pins_counted() && (residency_of(old(self).entries@, key)
                == ResidencyClass::SharedPinned ==> old(self).entries@[position(
                old(self).entries@,
                key,
            )->0].size == size) ==> final(self).pins_counted(),
    {
        let ghost before = self.entries@;
        self.cache_insert_attempt_count = self.cache_insert_attempt_count + 1;
        if size > self.capacity_bytes {
            self.oversized_tensor_bypass_count = self.oversized_tensor_bypass_count + 1;
            self.cache_insert_bypass_count = self.cache_insert_bypass_count + 1;
            return Arc::new(buf);
        }
        self.cache_insert_accept_count = self.cache_insert_accept_count + 1;
        let mut residency = ResidencyClass::RoutedDynamic;
        proof {
            position_is_exact(before, key);
        }
        match self.position_of(&key) {
            Some(i) => {
                proof {
                    lemma_total_remove(before, i as int, false);
                    lemma_total_remove(before, i as int, true);
                    lemma_distinct_remove(before, i as int);
                }
                let entry = self.entries.remove(i);
                self.resident_bytes = self.resident_bytes - entry.size;
                residency = entry.residency;
            },
            None => {},
        }
        let ghost rest = self.entries@;
        proof {
            lemma_make_room(rest, size as nat, self.capacity_bytes as nat, key);
        }
        self.free_up(size);
        let handle = Arc::new(buf);
        let entry = CacheEntry { key, buf: handle.clone(), size, residency };
        proof {
            lemma_distinct_push(self.entries@, entry);
            lemma_total_push(self.entries@, entry, false);
            lemma_total_push(self.entries@, entry, true);
        }
        self.entries.push(entry);
        self.resident_bytes = self.resident_bytes + size;
        handle
    }

    /// Whether `insert` may be called with `key` and `size`: see `insert_allowed`.
    pub fn can_insert(&self, key: &ExpertCacheKey, size: usize) -> (yes: bool)
        requires
            self.wf(),
        ensures
            yes == self.insert_allowed(*key, size),
    {
        if size > self.capacity_bytes {
            return true;
        }
        proof {
            position_is_exact(self.entries@, *key);
            match position(self.entries@, *key) {
                Some(at) => {
                    lemma_total_remove(self.entries@, at, true);
                },
                None => {},
            }
            lemma_pinned_at_most(self.entries@);
        }
        let mut pinned: usize = 0;
        let mut i: usize = 0;
        assert(self.entries@.take(0) == Seq::<CacheEntry<B>>::empty());
        while i < self.entries.len()
            invariant
                i <= self.entries@.len(),
                pinned == total_bytes(self.entries@.take(i as int), true),
                total_bytes(self.entries@, true) <= usize::MAX,
            decreases self.entries@.len() - i,
        {
            proof {
                let t = self.entries@.take(i + 1);
                assert(t.drop_last() == self.entries@.take(i as int));
                lemma_total_prefix(self.entries@, i + 1, true);
            }
            match self.entries[i].residency {
                ResidencyClass::SharedPinned => {
                    pinned = pinned + self.entries[i].size;
                },
                ResidencyClass::RoutedDynamic => {},
            }
            i = i + 1;
        }
        assert(self.entries@.take(i as int) == self.entries@);
        match self.position_of(key) {
            Some(at) => match self.entries[at].residency {
                ResidencyClass::SharedPinned => {
                    pinned = pinned - self.entries[at].size;
                },
                ResidencyClass::RoutedDynamic => {},
            },
            None => {},
        }
        pinned <= self.capacity_bytes && size <= self.capacity_bytes - pinned
    }

    /// Pins the entry of `key`, if there is one: it is never evicted from then on.
    pub fn pin(&mut self, key: &ExpertCacheKey)
        requires
            old(self).wf(),
            old(self).pinned_bytes + old(self).resident_bytes <= usize::MAX,
        ensures
            final(self).wf(),
            final(self).same_limits(*old(self)),
            final(self).resident_bytes == old(self).resident_bytes,
            final(self).counters() == old(self).counters(),
            old(self).pins_counted() ==> final(self).pins_counted(),
            match position(old(self).entries@, *key) {
                Some(i) => {
                    let e = old(self).entries@[i];
                    &&& final(self).entries@ == old(self).entries@.update(
                        i,
                        CacheEntry { residency: ResidencyClass::SharedPinned, ..e },
                    )
                    &&& final(self).pinned_bytes == old(self).pinned_bytes + (if e.is_pinned() {
                        0
                    } else {
                        e.size as int
                    })
                },
                None => {
                    &&& final(self).entries@ == old(self).entries@
                    &&& final(self).pinned_bytes == old(self).pinned_bytes
                },
            },
    {
        match self.position_of(key) {
            Some(i) => {
                let ghost before = self.entries@;
                let ghost e = before[i as int];
                let size: usize = self.entries[i].size;
                let unpinned = match self.entries[i].residency {
                    ResidencyClass::RoutedDynamic => true,
                    ResidencyClass::SharedPinned => false,
                };
                proof {
                    let p = CacheEntry { residency: ResidencyClass::SharedPinned, ..e };
                    lemma_total_update(before, i as int, p, false);
                    lemma_total_update(before, i as int, p, true);
                    lemma_total_remove(before, i as int, false);
                    assert(e.is_pinned() ==> before.update(i as int, p) == before);
                }
                if unpinned {
                    let pinned = CacheEntry {
                        key: self.entries[i].key,
                        buf: self.entries[i].buf.clone(),
                        size,
                        residency: ResidencyClass::SharedPinned,
                    };
                    self.entries.set(i, pinned);
                    self.pinned_bytes = self.pinned_bytes + size;
                }
                proof {
                    let p = CacheEntry { residency: ResidencyClass::SharedPinned, ..e };
                    assert(self.entries@ == before.update(i as int, p));
                    assert forall|a: int, b: int| 0 <= a < b < self.entries@.len() implies (
                    #[trigger] self.entries@[a]).key != (#[trigger] self.entries@[b]).key by {
                        assert(before[a].key != before[b].key);
                    }
                }
            },
            None => {},
        }
    }

    /// Caches `buf`, of `size` bytes, under a key that is not cached yet, and pins
    /// it. Entries that are not pinned make room; where they cannot make enough,
    /// the cache holds more than its capacity.
    pub fn insert_pinned(&mut self, key: ExpertCacheKey, buf: B, size: usize) -> (handle: Arc<B>)
        requires
            old(self).wf(),
            !old(self).holds(key),
            old(self).resident_bytes + size <= usize::MAX,
            old(self).pinned_bytes + size <= usize::MAX,
            old(self).eviction_count + old(self).entries@.len() <= usize::MAX,
        ensures
            *handle == buf,
            final(self).wf(),
            final(self).same_limits(*old(self)),
            final(self).pinned_bytes == old(self).pinned_bytes + size,
            old(self).pins_counted() ==> final(self).pins_counted(),
            ({
                let kept = make_room(
                    old(self).entries@,
                    size as nat,
                    old(self).capacity_bytes as nat,
                );
                &&& final(self).entries@ == kept.push(
                    CacheEntry { key, buf: handle, size, residency: ResidencyClass::SharedPinned },
                )
                &&& kept.len() <= old(self).entries@.len()
                &&& final(self).counters() == (CacheCounters {
                    eviction: (old(self).eviction_count + (old(self).entries@.len() - kept.len())) as usize,
                    ..old(self).counters()
                })
            }),
    {
        proof {
            position_is_exact(self.entries@, key);
            lemma_make_room(self.entries@, size as nat, self.capacity_bytes as nat, key);
        }
        self.free_up(size);
        let handle = Arc::new(buf);
        let entry = CacheEntry {
            key,
            buf: handle.clone(),
            size,
            residency: ResidencyClass::SharedPinned,
        };
        proof {
            lemma_distinct_push(self.entries@, entry);
            lemma_total_push(self.entries@, entry, false);
            lemma_total_push(self.entries@, entry, true);
        }
        self.entries.push(entry);
        self.resident_bytes = self.resident_bytes + size;
        self.pinned_bytes = self.pinned_bytes + size;
        handle
    }

    /// Drops every entry, pinned ones too. The counters stay.
    pub fn clear(&mut self)
        ensures
            final(self).wf(),
            final(self).pins_counted(),
            final(self).same_limits(*old(self)),
            final(self).entries@ == Seq::<CacheEntry<B>>::empty(),
            final(self).resident_bytes == 0,
            final(self).pinned_bytes == 0,
            final(self).counters() == old(self).counters(),
    {
        self.entries.clear();
        self.resident_bytes = 0;
        self.pinned_bytes = 0;
    }

    /// Gives the cache other limits and sets its counters to zero. What is cached
    /// and pinned stays, also where it is more than the new capacity.
    pub fn configure(&mut self, capacity_bytes: usize, bypass_oversized_experts: bool)
        ensures
            final(self).capacity_bytes == capacity_bytes,
            final(self).bypass_oversized_experts == bypass_oversized_experts,
            final(self).counters() == no_events(),
            final(self).entries@ == old(self).entries@,
            final(self).resident_bytes == old(self).resident_bytes,
            final(self).pinned_bytes == old(self).pinned_bytes,
            old(self).wf() ==> final(self).wf(),
            old(self).pins_counted() ==> final(self).pins_counted(),
    {
        self.capacity_bytes = capacity_bytes;
        self.bypass_oversized_experts = bypass_oversized_experts;
        self.reset_counters();
    }

    /// Sets the counters to zero. What is cached and pinned stays.
    pub fn reset_counters(&mut self)
        ensures
            final(self).counters() == no_events(),
            final(self).same_limits(*old(self)),
            final(self).entries@ == old(self).entries@,
            final(self).resident_bytes == old(self).resident_bytes,
            final(self).pinned_bytes == old(self).pinned_bytes,
            old(self).wf() ==> final(self).wf(),
            old(self).pins_counted() ==> final(self).pins_counted(),
    {
        self.hit_count = 0;
        self.miss_count = 0;
        self.eviction_count = 0;
        self.cache_insert_attempt_count = 0;
        self.cache_insert_accept_count = 0;
        self.cache_insert_bypass_count = 0;
        self.oversized_tensor_bypass_count = 0;
        self.oversized_expert_bypass_count = 0;
        self.self_eviction_risk_count = 0;
    }
}

proof fn lemma_total_update<B>(
    s: Seq<CacheEntry<B>>,
    i: int,
    e: CacheEntry<B>,
    pinned_only: bool,
)
    requires
        0 <= i < s.len(),
    ensures
        total_bytes(s.update(i, e), pinned_only) + entry_bytes(s[i], pinned_only) == total_bytes(
            s,
            pinned_only,
        ) + entry_bytes(e, pinned_only),
{
    lemma_total_remove(s, i, pinned_only);
    lemma_total_remove(s.update(i, e), i, pinned_only);
    assert(s.update(i, e).remove(i) == s.remove(i));
}

proof fn lemma_total_prefix<B>(s: Seq<CacheEntry<B>>, k: int, pinned_only: bool)
    requires
        0 <= k <= s.len(),
    ensures
        total_bytes(s.take(k), pinned_only) <= total_bytes(s, pinned_only),
    decreases s.len() - k,
{
    if k < s.len() {
        lemma_total_prefix(s, k + 1, pinned_only);
        assert(s.take(k + 1).drop_last() == s.take(k));
    } else {
        assert(s.take(k) == s);
    }
}

/// A tensor that was just inserted is found, with the buffer that went in, and
/// is the last to be evicted.
pub proof fn inserted_is_found<B>(kept: Seq<CacheEntry<B>>, e: CacheEntry<B>)
    requires
        distinct_keys(kept.push(e)),
    ensures
        position(kept.push(e), e.key) == Some(kept.len() as int),
        touched(kept.push(e), e.key) == kept.push(e),
{
    let s = kept.push(e);
    lemma_position_at(s, kept.len() as int);
    assert(s.remove(kept.len() as int) == kept);
}

/// Looking a tensor up twice in a row changes nothing the second time.
pub proof fn touch_is_idempotent<B>(s: Seq<CacheEntry<B>>, key: ExpertCacheKey)
    requires
        distinct_keys(s),
    ensures
        touched(touched(s, key), key) == touched(s, key),
{
    position_is_exact(s, key);
    match position(s, key) {
        Some(i) => {
            lemma_distinct_remove(s, i);
            lemma_distinct_push(s.remove(i), s[i]);
            inserted_is_found(s.remove(i), s[i]);
        },
        None => {},
    }
}

/// A lookup neither adds nor drops an entry.
pub proof fn touch_keeps_entries<B>(s: Seq<CacheEntry<B>>, key: ExpertCacheKey)
    requires
        distinct_keys(s),
    ensures
        touched(s, key).to_multiset() == s.to_multiset(),
{
    broadcast use vstd::seq_lib::group_to_multiset_ensures;

    position_is_exact(s, key);
    match position(s, key) {
        Some(i) => {
            assert(touched(s, key).to_multiset() =~= s.to_multiset());
        },
        None => {},
    }
}

/// No more is evicted than the new entry needs: had the most recent one of those
/// that left stayed, the new entry would not fit.
pub proof fn eviction_stops_in_time<B>(
    s: Seq<CacheEntry<B>>,
    size: nat,
    capacity: nat,
    i: int,
)
    requires
        distinct_keys(s),
        0 <= i < s.len(),
        !make_room(s, size, capacity).contains(s[i]),
        forall|j: int|
            i < j < s.len() ==> make_room(s, size, capacity).contains(#[trigger] s[j]),
    ensures
        total_bytes(make_room(s, size, capacity), false) + s[i].size + size > capacity,
    decreases s.len(),
{
    let kept = make_room(s, size, capacity);
    victim_is_first_unpinned(s);
    if total_bytes(s, false) + size <= capacity || victim(s) is None {
        assert(kept == s);
        assert(kept.contains(s[i]));
    } else {
        let v = victim(s)->0;
        let t = s.remove(v);
        lemma_total_remove(s, v, false);
        lemma_distinct_remove(s, v);
        assert(kept == make_room(t, size, capacity));
        if i < v {
            assert(s.contains(s[i]));
            pinned_survive(s, size, capacity, s[i]);
        } else if i == v {
            victim_is_first_unpinned(t);
            if total_bytes(t, false) + size > capacity && victim(t) is Some {
                let w = victim(t)->0;
                assert(w >= v) by {
                    if w < v {
                        assert(t[w] == s[w]);
                        assert(s[w].is_pinned());
                    }
                }
                assert(t[w] == s[w + 1]);
                assert(kept.contains(s[w + 1]));
                assert(kept == make_room(t.remove(w), size, capacity));
                make_room_is_subset(t.remove(w), size, capacity, s[w + 1]);
                lemma_distinct_remove(t, w);
                let k = choose|k: int|
                    0 <= k < t.remove(w).len() && t.remove(w)[k] == s[w + 1];
                assert(t.remove(w)[k].key != t[w].key);
            } else {
                assert(kept == t);
            }
        } else {
            assert(t[i - 1] == s[i]);
            assert forall|j: int| i - 1 < j < t.len() implies make_room(
                t,
                size,
                capacity,
            ).contains(#[trigger] t[j]) by {
                assert(t[j] == s[j + 1]);
            }
            eviction_stops_in_time(t, size, capacity, i - 1);
        }
    }
}

/// The entry that a tensor gets: under its key, last in line, with its size. A
/// tensor that was pinned stays so, and a new one is not.
pub proof fn inserted_stand_last<B>(
    before: CudaExpertCache<B>,
    after: CudaExpertCache<B>,
    key: ExpertCacheKey,
    handle: Arc<B>,
    size: usize,
)
    requires
        inserted(before, after, key, handle, size),
        size <= before.capacity_bytes,
    ensures
        after.entries@.len() > 0,
        after.entries@.last().key == key,
        after.entries@.last().buf == handle,
        after.entries@.last().size == size,
        after.entries@.last().is_pinned() <==> before.holds(key) && before.entries@[position(
            before.entries@,
            key,
        )->0].is_pinned(),
        after.resident_bytes <= before.capacity_bytes,
{
}

/// A tensor larger than the cache leaves it as it is.
pub proof fn oversized_tensors_go_past<B>(
    before: CudaExpertCache<B>,
    after: CudaExpertCache<B>,
    key: ExpertCacheKey,
    handle: Arc<B>,
    size: usize,
)
    requires
        inserted(before, after, key, handle, size),
        size > before.capacity_bytes,
    ensures
        after.entries@ == before.entries@,
        after.counters().insert_accept == before.counters().insert_accept,
        after.counters().eviction == before.counters().eviction,
{
}

/// What all entries weigh is the sum of their sizes, and what the pinned ones weigh
/// that of theirs.
pub proof fn totals_are_sums<B>(s: Seq<CacheEntry<B>>)
    ensures
        total_bytes(s, false) == s.map_values(|e: CacheEntry<B>| e.size as nat).fold_left(
            0nat,
            |sum: nat, n: nat| sum + n,
        ),
        total_bytes(s, true) == total_bytes(
            s.filter(|e: CacheEntry<B>| e.residency == ResidencyClass::SharedPinned),
            false,
        ),
    decreases s.len(),
{
    reveal(Seq::filter);
    if s.len() > 0 {
        let front = s.drop_last();
        totals_are_sums(front);
        let f = |e: CacheEntry<B>| e.size as nat;
        assert(s.map_values(f).drop_last() == front.map_values(f));
        let pinned = |e: CacheEntry<B>| e.residency == ResidencyClass::SharedPinned;
        if pinned(s.last()) {
            assert(front.filter(pinned).push(s.last()).drop_last() == front.filter(pinned));
        }
    }
}

} // verus!
