//! A bounded set of previously seen keys, with coarse bulk eviction.

use vstd::prelude::*;
use ahash::AHashSet;
use crate::containers::{
    key_set_of, key_set_new, key_set_contains, key_set_insert, key_set_len, key_set_clear,
    key_set_sample,
};

verus! {

/// Capacity of a deduplicator built while lightweight mode is active.
pub const LIGHTWEIGHT_CAPACITY: usize = 5000;

/// Capacity of a deduplicator built in normal mode.
pub const NORMAL_CAPACITY: usize = 20000;

/// The capacity that a deduplicator gets when built in the given mode.
pub open spec fn capacity_for(lightweight: bool) -> usize {
    if lightweight { LIGHTWEIGHT_CAPACITY } else { NORMAL_CAPACITY }
}

/// How many keys survive a bulk eviction: a quarter of the capacity in
/// lightweight mode, half of it otherwise.
pub open spec fn keep_size(max_size: usize, lightweight: bool) -> int {
    if lightweight { max_size as int / 4 } else { max_size as int / 2 }
}

/// The number of `true` entries of `s`.
pub open spec fn count_true(s: Seq<bool>) -> nat
    decreases s.len(),
{
    if s.len() == 0 {
        0
    } else {
        count_true(s.drop_last()) + if s.last() { 1nat } else { 0nat }
    }
}

/// The characters of each key.
pub open spec fn key_views(keys: Seq<String>) -> Seq<Seq<char>> {
    keys.map_values(|k: String| k@)
}

/// The answers of a batch `ks` against the held keys `seen`: entry `i` is
/// whether `ks[i]` was held, or came earlier in the batch.
pub open spec fn batch_answers(seen: Set<Seq<char>>, ks: Seq<Seq<char>>) -> Seq<bool> {
    Seq::new(ks.len(), |i: int| seen.contains(ks[i]) || ks.take(i).contains(ks[i]))
}

struct DedupStats {
    total_checked: u64,
    duplicates_found: u64,
    cache_clears: u64,
}

/// The counters of a deduplicator since it was built or last cleared.
pub struct DedupResult {
    pub is_duplicate: bool,
    pub total_checked: u64,
    pub duplicates_found: u64,
}

/// Remembers the keys it has been shown, up to a capacity fixed when it is built.
pub struct Deduplicator {
    seen_items: AHashSet<String>,
    max_size: usize,
    stats: DedupStats,
}

impl Deduplicator {
    /// The keys currently remembered.
    pub closed spec fn seen(&self) -> Set<Seq<char>> {
        key_set_of(self.seen_items)
    }

    pub closed spec fn capacity(&self) -> usize {
        self.max_size
    }

    pub closed spec fn total_checked(&self) -> u64 {
        self.stats.total_checked
    }

    pub closed spec fn duplicates_found(&self) -> u64 {
        self.stats.duplicates_found
    }

    pub closed spec fn cache_clears(&self) -> u64 {
        self.stats.cache_clears
    }

    /// The key set is finite, the capacity is one of the two the modes give,
    /// and every duplicate and every eviction was counted by a check.
    pub open spec fn wf(&self) -> bool {
        &&& self.seen().finite()
        &&& (self.capacity() == LIGHTWEIGHT_CAPACITY || self.capacity() == NORMAL_CAPACITY)
        &&& self.duplicates_found() + self.cache_clears() <= self.total_checked()
    }

    /// What one `check_and_add(key)` does, from `before` to `after`, returning `dup`.
    #[verifier::opaque]
    pub open spec fn added(before: Self, key: Seq<char>, lightweight: bool, after: Self, dup: bool) -> bool {
        &&& after.wf()
        &&& dup == before.seen().contains(key)
        &&& after.capacity() == before.capacity()
        &&& after.total_checked() == before.total_checked() + 1
        &&& after.duplicates_found() == before.duplicates_found() + if dup { 1int } else { 0int }
        &&& dup ==> after.seen() == before.seen() && after.cache_clears() == before.cache_clears()
        &&& !dup && before.seen().len() < before.capacity() ==> {
            &&& after.seen() == before.seen().insert(key)
            &&& after.cache_clears() == before.cache_clears()
        }
        &&& !dup && before.seen().len() >= before.capacity() ==> {
            &&& after.seen().contains(key)
            &&& after.seen().remove(key).subset_of(before.seen())
            &&& after.seen().len() == keep_size(before.capacity(), lightweight) + 1
            &&& after.cache_clears() == before.cache_clears() + 1
        }
    }

    /// An empty deduplicator whose capacity is 5000 in lightweight mode and
    /// 20000 otherwise, fixed for its lifetime.
    pub fn new(lightweight: bool) -> (r: Self)
        ensures
            r.wf(),
            r.capacity() == capacity_for(lightweight),
            r.seen().is_empty(),
            r.total_checked() == 0,
            r.duplicates_found() == 0,
            r.cache_clears() == 0,
    {
        let max_size: usize = if lightweight { LIGHTWEIGHT_CAPACITY } else { NORMAL_CAPACITY };
        Deduplicator {
            seen_items: key_set_new(),
            max_size,
            stats: DedupStats { total_checked: 0, duplicates_found: 0, cache_clears: 0 },
        }
    }

    /// Reports whether `key` was seen before; if not, remembers it. When the
    /// set has reached its capacity, all but an arbitrary `keep_size` keys are
    /// forgotten first.
    pub fn check_and_add(&mut self, key: String, lightweight: bool) -> (dup: bool)
        requires
            old(self).wf(),
            old(self).total_checked() < u64::MAX,
        ensures
            final(self).wf(),
            dup == old(self).seen().contains(key@),
            final(self).capacity() == old(self).capacity(),
            final(self).total_checked() == old(self).total_checked() + 1,
            Self::added(*old(self), key@, lightweight, *final(self), dup),
    {
        reveal(Deduplicator::added);
        self.stats.total_checked = self.stats.total_checked + 1;
        if key_set_contains(&self.seen_items, &key) {
            self.stats.duplicates_found = self.stats.duplicates_found + 1;
            return true;
        }
        let len = key_set_len(&self.seen_items);
        if len >= self.max_size {
            let keep_size: usize = if lightweight { self.max_size / 4 } else { self.max_size / 2 };
            let keys_to_keep = key_set_sample(&self.seen_items, keep_size);
            let ghost before = key_set_of(self.seen_items);
            key_set_clear(&mut self.seen_items);
            self.refill(keys_to_keep, Ghost(before));
            self.stats.cache_clears = self.stats.cache_clears + 1;
        }
        key_set_insert(&mut self.seen_items, key);
        false
    }

    /// Puts the distinct keys `keep` back into the emptied set.
    fn refill(&mut self, keep: Vec<String>, Ghost(source): Ghost<Set<Seq<char>>>)
        requires
            old(self).seen().is_empty(),
            forall|i: int| 0 <= i < keep.len() ==> source.contains(#[trigger] keep[i]@),
            forall|i: int, j: int| 0 <= i < j < keep.len() ==> #[trigger] keep[i]@ != #[trigger] keep[j]@,
        ensures
            final(self).seen().subset_of(source),
            final(self).seen().finite(),
            final(self).seen().len() == keep.len(),
            final(self).max_size == old(self).max_size,
            final(self).stats == old(self).stats,
    {
        let ghost ks = key_views(keep@);
        let n = keep.len();
        for k in it: keep
            invariant
                n == ks.len(),
                ks == key_views(it.seq()),
                self.seen() == ks.take(it.index() as int).to_set(),
                self.seen().finite(),
                self.seen().len() == it.index(),
                self.max_size == old(self).max_size,
                self.stats == old(self).stats,
                forall|i: int| 0 <= i < ks.len() ==> source.contains(#[trigger] ks[i]),
                forall|i: int, j: int| 0 <= i < j < ks.len() ==> #[trigger] ks[i] != #[trigger] ks[j],
        {
            let ghost idx = it.index() as int;
            proof {
                assert(ks.take(idx + 1) == ks.take(idx).push(ks[idx]));
                assert(!ks.take(idx).contains(ks[idx])) by {
                    if ks.take(idx).contains(ks[idx]) {
                        let j = choose|j: int| 0 <= j < idx && ks.take(idx)[j] == ks[idx];
                        assert(ks[j] == ks.take(idx)[j]);
                    }
                }
                ks.take(idx).lemma_push_to_set_commute(ks[idx]);
            }
            key_set_insert(&mut self.seen_items, k);
        }
        proof {
            assert(ks.take(n as int) == ks);
            assert forall|x: Seq<char>| self.seen().contains(x) implies source.contains(x) by {
                let i = choose|i: int| 0 <= i < ks.len() && ks[i] == x;
            }
        }
    }

    /// Checks each key in order as `check_and_add` does, but never evicts:
    /// a batch may leave more keys than the capacity. Entry `i` of the result
    /// tells whether `keys[i]` was held before, or came earlier in the batch.
    pub fn check_batch(&mut self, keys: Vec<String>) -> (r: Vec<bool>)
        requires
            old(self).wf(),
            old(self).total_checked() + keys.len() <= u64::MAX,
        ensures
            final(self).wf(),
            final(self).capacity() == old(self).capacity(),
            final(self).seen() == old(self).seen().union(key_views(keys@).to_set()),
            r.len() == keys.len(),
            forall|i: int| 0 <= i < r.len() ==> #[trigger] r[i] == (old(self).seen().contains(keys[i]@)
                || key_views(keys@).take(i).contains(keys[i]@)),
            r@ == batch_answers(old(self).seen(), key_views(keys@)),
            final(self).total_checked() == old(self).total_checked() + keys.len(),
            final(self).duplicates_found() == old(self).duplicates_found() + count_true(r@),
            final(self).cache_clears() == old(self).cache_clears(),
    {
        let ghost ks = key_views(keys@);
        let ghost start = self.seen();
        let mut results: Vec<bool> = Vec::with_capacity(keys.len());
        for key in it: keys
            invariant
                ks == key_views(it.seq()),
                results.len() == it.index(),
                self.wf(),
                self.max_size == old(self).max_size,
                start == old(self).seen(),
                self.seen() == start.union(ks.take(it.index() as int).to_set()),
                forall|i: int| 0 <= i < results.len() ==> #[trigger] results[i] == (start.contains(ks[i])
                    || ks.take(i).contains(ks[i])),
                self.stats.total_checked == old(self).stats.total_checked + it.index(),
                old(self).stats.total_checked + ks.len() <= u64::MAX,
                self.stats.duplicates_found == old(self).stats.duplicates_found + count_true(results@),
                self.stats.cache_clears == old(self).stats.cache_clears,
        {
            let ghost idx = it.index() as int;
            proof {
                assert(ks.take(idx + 1) == ks.take(idx).push(ks[idx]));
                ks.take(idx).lemma_push_to_set_commute(ks[idx]);
                assert(key@ == ks[idx]);
                assert(ks.take(idx).to_set().contains(ks[idx]) == ks.take(idx).contains(ks[idx]));
            }
            self.stats.total_checked = self.stats.total_checked + 1;
            let is_dup = key_set_contains(&self.seen_items, &key);
            if is_dup {
                self.stats.duplicates_found = self.stats.duplicates_found + 1;
            } else {
                key_set_insert(&mut self.seen_items, key);
            }
            let ghost prev = results@;
            results.push(is_dup);
            assert(results@.drop_last() == prev);
        }
        proof {
            assert(ks.take(ks.len() as int) == ks);
            assert(results@ =~= batch_answers(start, ks));
        }
        results
    }

    /// The counters since the deduplicator was built or last cleared.
    pub fn get_stats(&self) -> (r: DedupResult)
        requires
            self.wf(),
        ensures
            r.duplicates_found <= r.total_checked,
            r.is_duplicate == (self.duplicates_found() > 0),
            r.total_checked == self.total_checked(),
            r.duplicates_found == self.duplicates_found(),
    {
        DedupResult {
            is_duplicate: self.stats.duplicates_found > 0,
            total_checked: self.stats.total_checked,
            duplicates_found: self.stats.duplicates_found,
        }
    }

    /// The number of keys held, saturated at `u32::MAX`.
    pub fn get_cache_size(&self) -> (r: u32)
        requires
            self.wf(),
        ensures
            r as int == if self.seen().len() <= u32::MAX { self.seen().len() as int } else { u32::MAX as int },
    {
        let len = key_set_len(&self.seen_items);
        if len <= u32::MAX as usize { len as u32 } else { u32::MAX }
    }

    /// The capacity fixed when the deduplicator was built.
    pub fn get_max_size(&self) -> (r: usize)
        ensures
            r == self.capacity(),
    {
        self.max_size
    }

    /// Forgets every key and zeroes every counter; the capacity stays.
    pub fn clear(&mut self)
        requires
            old(self).wf(),
        ensures
            final(self).wf(),
            final(self).capacity() == old(self).capacity(),
            final(self).seen().is_empty(),
            final(self).total_checked() == 0,
            final(self).duplicates_found() == 0,
            final(self).cache_clears() == 0,
    {
        key_set_clear(&mut self.seen_items);
        self.stats = DedupStats { total_checked: 0, duplicates_found: 0, cache_clears: 0 };
    }
}

/// A key that is not held comes back as new from a first `check_and_add`, and
/// as a duplicate from an immediately following one, in either mode.
pub proof fn lemma_add_then_duplicate(
    d0: Deduplicator,
    d1: Deduplicator,
    d2: Deduplicator,
    key: Seq<char>,
    mode1: bool,
    mode2: bool,
    first: bool,
    second: bool,
)
    requires
        !d0.seen().contains(key),
        Deduplicator::added(d0, key, mode1, d1, first),
        Deduplicator::added(d1, key, mode2, d2, second),
    ensures
        !first,
        second,
{
    reveal(Deduplicator::added);
}

/// A batch `k1, k2, k1` of two distinct keys that are not held answers
/// new, new, duplicate.
pub proof fn lemma_batch_repeat_answers(seen: Set<Seq<char>>, k1: Seq<char>, k2: Seq<char>)
    requires
        k1 != k2,
        !seen.contains(k1),
        !seen.contains(k2),
    ensures
        batch_answers(seen, seq![k1, k2, k1]) == seq![false, false, true],
{
    let ks = seq![k1, k2, k1];
    assert(ks.take(0) =~= Seq::<Seq<char>>::empty());
    assert(ks.take(1) =~= seq![k1]);
    assert(ks.take(2) =~= seq![k1, k2]);
    assert(ks.take(2)[0] == k1);
    assert(!ks.take(1).contains(k2)) by {
        if ks.take(1).contains(k2) {
            let j = choose|j: int| 0 <= j < 1 && ks.take(1)[j] == k2;
        }
    }
    assert(batch_answers(seen, ks) =~= seq![false, false, true]);
}

/// From a state within capacity, any run of single-key `check_and_add`
/// calls (states `ds`, keys `keys`, modes `modes`, answers `dups`) keeps
/// every state within capacity.
pub proof fn lemma_single_adds_stay_bounded(
    ds: Seq<Deduplicator>,
    keys: Seq<Seq<char>>,
    modes: Seq<bool>,
    dups: Seq<bool>,
)
    requires
        ds.len() == keys.len() + 1,
        modes.len() == keys.len(),
        dups.len() == keys.len(),
        ds[0].wf(),
        ds[0].seen().len() <= ds[0].capacity(),
        forall|i: int| 0 <= i < keys.len() ==> Deduplicator::added(#[trigger] ds[i], keys[i], modes[i], ds[i + 1], dups[i]),
    ensures
        forall|i: int| 0 <= i < ds.len() ==> #[trigger] ds[i].seen().len() <= ds[i].capacity(),
        forall|i: int| 0 <= i < ds.len() ==> #[trigger] ds[i].wf(),
    decreases keys.len(),
{
    if keys.len() > 0 {
        let n = keys.len() - 1;
        lemma_single_adds_stay_bounded(ds.drop_last(), keys.drop_last(), modes.drop_last(), dups.drop_last());
        assert(ds.drop_last()[n] == ds[n]);
        lemma_one_add_bounded(ds[n], keys[n], modes[n], ds[n + 1], dups[n]);
        assert forall|i: int| 0 <= i < ds.len() implies #[trigger] ds[i].seen().len() <= ds[i].capacity() by {
            if i < ds.len() - 1 {
                assert(ds.drop_last()[i] == ds[i]);
            }
        }
        assert forall|i: int| 0 <= i < ds.len() implies #[trigger] ds[i].wf() by {
            if i < ds.len() - 1 {
                assert(ds.drop_last()[i] == ds[i]);
            }
        }
    }
}

/// One `check_and_add` keeps a deduplicator within capacity.
pub proof fn lemma_one_add_bounded(before: Deduplicator, key: Seq<char>, lightweight: bool, after: Deduplicator, dup: bool)
    requires
        before.wf(),
        before.seen().len() <= before.capacity(),
        Deduplicator::added(before, key, lightweight, after, dup),
    ensures
        after.wf(),
        after.seen().len() <= after.capacity(),
{
    reveal(Deduplicator::added);
    if !dup && before.seen().len() < before.capacity() {
        assert(after.seen().len() == before.seen().len() + 1);
    }
}

} // verus!
