//! A time-windowed price cache: drops near-duplicate observations, serves
//! still-fresh cached values, and picks medians.

use vstd::prelude::*;
use ahash::AHashMap;
use crate::types::{CachedPrice, PriceData, PriceKey, PriceKeyView};
use crate::containers::{
    fresh_entries, price_map_of, price_map_new, price_map_get, price_map_insert, price_map_len,
    price_map_clear, price_map_retain_fresh,
};

verus! {

/// Observations of one key closer together than this are duplicates.
pub const DEDUP_WINDOW_MS: i64 = 5000;

/// `t / 2`, rounded toward zero as Rust's integer division does.
pub open spec fn half_toward_zero(t: i64) -> int {
    if t >= 0 { t / 2 } else { -((-t) / 2) }
}

/// The cache key of an observation: its `(token_a, token_b, source)`.
pub open spec fn price_key(p: PriceData) -> PriceKeyView {
    (p.token_a@, p.token_b@, p.source@)
}

/// Two observations share a cache key exactly when their token pair and
/// source agree.
pub proof fn lemma_price_key_injective(p: PriceData, q: PriceData)
    ensures
        price_key(p) == price_key(q) <==> (p.token_a@ == q.token_a@ && p.token_b@ == q.token_b@
            && p.source@ == q.source@),
{
}

/// The cache after the sweep that lightweight mode makes before a batch.
pub open spec fn swept(cache: Map<PriceKeyView, CachedPrice>, now: i64, timeout: i64, lightweight: bool) -> Map<PriceKeyView, CachedPrice> {
    if lightweight { fresh_entries(cache, now, timeout) } else { cache }
}

/// One observation against the cache: the new cache and what is emitted.
/// A key seen less than `dedup` ago is dropped; one seen less than `timeout`
/// ago emits the cached value; otherwise the observation is cached and emitted.
pub open spec fn window_step(
    cache: Map<PriceKeyView, CachedPrice>,
    p: PriceData,
    now: i64,
    dedup: i64,
    timeout: i64,
) -> (Map<PriceKeyView, CachedPrice>, Seq<PriceData>) {
    let k = price_key(p);
    if cache.contains_key(k) && now - cache[k].timestamp < dedup {
        (cache, Seq::empty())
    } else if cache.contains_key(k) && now - cache[k].timestamp < timeout {
        (cache, seq![cache[k].data])
    } else {
        (cache.insert(k, CachedPrice { data: p, timestamp: now }), seq![p])
    }
}

/// The observations `ps` taken in order: the final cache and everything emitted.
pub open spec fn window_run(
    cache: Map<PriceKeyView, CachedPrice>,
    ps: Seq<PriceData>,
    now: i64,
    dedup: i64,
    timeout: i64,
) -> (Map<PriceKeyView, CachedPrice>, Seq<PriceData>)
    decreases ps.len(),
{
    if ps.len() == 0 {
        (cache, Seq::empty())
    } else {
        let (c, out) = window_run(cache, ps.drop_last(), now, dedup, timeout);
        let (c2, o) = window_step(c, ps.last(), now, dedup, timeout);
        (c2, out + o)
    }
}

/// The median choice: nothing for no observations, the only one for one,
/// else the entry at rank `n / 2` of the `n` observations whose price parsed,
/// listed by `ascending` (indices into `ps`, in ascending order of price).
pub open spec fn median_pick(ps: Seq<PriceData>, ascending: Seq<usize>) -> Option<PriceData> {
    if ps.len() == 0 {
        None
    } else if ps.len() == 1 {
        Some(ps[0])
    } else if ascending.len() == 0 {
        None
    } else {
        Some(ps[ascending[(ascending.len() / 2) as int] as int])
    }
}

/// Builds the cache key of an observation.
pub fn price_key_of(p: &PriceData) -> (r: PriceKey)
    ensures
        r@ == price_key(*p),
{
    (p.token_a.clone(), p.token_b.clone(), p.source.clone())
}

/// Caches the latest accepted observation of each key, with the time it was taken in.
pub struct TurboAggregator {
    price_cache: AHashMap<PriceKey, CachedPrice>,
    cache_timeout_ms: i64,
    dedup_window_ms: i64,
}

impl TurboAggregator {
    /// The cached entries, by key.
    pub closed spec fn cache(&self) -> Map<PriceKeyView, CachedPrice> {
        price_map_of(self.price_cache)
    }

    pub closed spec fn timeout(&self) -> i64 {
        self.cache_timeout_ms
    }

    pub closed spec fn dedup_window(&self) -> i64 {
        self.dedup_window_ms
    }

    /// The dedup window is the fixed five seconds.
    pub open spec fn wf(&self) -> bool {
        self.dedup_window() == DEDUP_WINDOW_MS
    }

    /// An aggregator whose cache timeout is `cache_timeout_ms`, halved when
    /// built in lightweight mode, and whose dedup window is five seconds.
    pub fn new(cache_timeout_ms: i64, lightweight: bool) -> (r: Self)
        ensures
            r.cache().is_empty(),
            r.timeout() == if lightweight { half_toward_zero(cache_timeout_ms) } else { cache_timeout_ms as int },
            r.dedup_window() == DEDUP_WINDOW_MS,
            r.wf(),
    {
        let timeout: i64 = if lightweight { cache_timeout_ms / 2 } else { cache_timeout_ms };
        TurboAggregator {
            price_cache: price_map_new(),
            cache_timeout_ms: timeout,
            dedup_window_ms: DEDUP_WINDOW_MS,
        }
    }

    /// Takes the observations in order at time `current_time_ms` (after, in
    /// lightweight mode, dropping every entry as old as the timeout) and
    /// returns what `window_run` emits.
    pub fn aggregate_prices(&mut self, prices: Vec<PriceData>, current_time_ms: i64, lightweight: bool) -> (r: Vec<PriceData>)
        requires
            old(self).wf(),
        ensures
            final(self).wf(),
            final(self).timeout() == old(self).timeout(),
            final(self).dedup_window() == old(self).dedup_window(),
            (final(self).cache(), r@) == window_run(
                swept(old(self).cache(), current_time_ms, old(self).timeout(), lightweight),
                prices@,
                current_time_ms,
                old(self).dedup_window(),
                old(self).timeout(),
            ),
    {
        if lightweight {
            self.evict_old_entries(current_time_ms);
        }
        let ghost start = self.cache();
        let ghost now = current_time_ms;
        let ghost dedup = self.dedup_window_ms;
        let ghost timeout = self.cache_timeout_ms;
        let mut aggregated: Vec<PriceData> = Vec::new();
        for price in it: prices
            invariant
                start == swept(old(self).cache(), now, timeout, lightweight),
                now == current_time_ms,
                dedup == self.dedup_window_ms,
                timeout == self.cache_timeout_ms,
                self.dedup_window_ms == old(self).dedup_window_ms,
                self.cache_timeout_ms == old(self).cache_timeout_ms,
                it.seq() == prices@,
                (self.cache(), aggregated@) == window_run(start, it.seq().take(it.index() as int), now, dedup, timeout),
        {
            let ghost idx = it.index() as int;
            proof {
                let ps = it.seq().take(idx + 1);
                assert(ps.drop_last() == it.seq().take(idx));
                assert(ps.last() == price);
            }
            let key = price_key_of(&price);
            let mut skip = false;
            let mut from_cache: Option<PriceData> = None;
            match price_map_get(&self.price_cache, &key) {
                Some(cached) => {
                    let age: i128 = (current_time_ms as i128) - (cached.timestamp as i128);
                    if age < self.dedup_window_ms as i128 {
                        skip = true;
                    } else if age < self.cache_timeout_ms as i128 {
                        from_cache = Some(cached.data.clone());
                    }
                },
                None => {},
            }
            if skip {
                assert(aggregated@ + Seq::<PriceData>::empty() == aggregated@);
            } else {
                match from_cache {
                    Some(d) => {
                        aggregated.push(d);
                    },
                    None => {
                        price_map_insert(
                            &mut self.price_cache,
                            key,
                            CachedPrice { data: price.clone(), timestamp: current_time_ms },
                        );
                        aggregated.push(price);
                    },
                }
            }
        }
        proof {
            assert(prices@.take(prices@.len() as int) == prices@);
        }
        aggregated
    }

    /// Drops every entry whose age at `current_time_ms` has reached the timeout.
    fn evict_old_entries(&mut self, current_time_ms: i64)
        ensures
            final(self).cache() == fresh_entries(old(self).cache(), current_time_ms, old(self).timeout()),
            final(self).cache_timeout_ms == old(self).cache_timeout_ms,
            final(self).dedup_window_ms == old(self).dedup_window_ms,
    {
        price_map_retain_fresh(&mut self.price_cache, current_time_ms, self.cache_timeout_ms);
    }

    /// The median observation: `ascending` lists the indices of the
    /// observations whose price parses as a number, in ascending order of that
    /// number (the parsing and ordering of decimal prices is the caller's).
    pub fn calculate_median_price(&self, prices: Vec<PriceData>, ascending: &Vec<usize>) -> (r: Option<PriceData>)
        requires
            forall|i: int| 0 <= i < ascending.len() ==> #[trigger] ascending[i] < prices.len(),
        ensures
            r == median_pick(prices@, ascending@),
    {
        if prices.len() == 0 {
            return None;
        }
        if prices.len() == 1 {
            return Some(prices[0].clone());
        }
        if ascending.len() == 0 {
            return None;
        }
        let median_idx = ascending.len() / 2;
        Some(prices[ascending[median_idx]].clone())
    }

    /// The number of cached entries, saturated at `u32::MAX`.
    pub fn get_cache_size(&self) -> (r: u32)
        ensures
            r as int == if self.cache().len() <= u32::MAX { self.cache().len() as int } else { u32::MAX as int },
    {
        let len = price_map_len(&self.price_cache);
        if len <= u32::MAX as usize { len as u32 } else { u32::MAX }
    }

    /// Drops every cached entry; the timeout and window stay.
    pub fn clear_cache(&mut self)
        requires
            old(self).wf(),
        ensures
            final(self).wf(),
            final(self).cache().is_empty(),
            final(self).timeout() == old(self).timeout(),
            final(self).dedup_window() == old(self).dedup_window(),
    {
        price_map_clear(&mut self.price_cache);
    }
}

/// Two identical observations of one key in one batch are emitted once,
/// whenever the cache, after the lightweight sweep, holds no entry of that
/// key younger than the dedup window or the timeout.
pub proof fn lemma_identical_pair_emitted_once(agg: TurboAggregator, p: PriceData, now: i64, lightweight: bool)
    requires
        agg.wf(),
        ({
            let c = swept(agg.cache(), now, agg.timeout(), lightweight);
            let k = price_key(p);
            !(c.contains_key(k) && (now - c[k].timestamp < agg.dedup_window() || now - c[k].timestamp < agg.timeout()))
        }),
    ensures
        window_run(swept(agg.cache(), now, agg.timeout(), lightweight), seq![p, p], now, agg.dedup_window(), agg.timeout()).1
            == seq![p],
{
    let c = swept(agg.cache(), now, agg.timeout(), lightweight);
    let ps = seq![p, p];
    assert(ps.drop_last() == seq![p]);
    assert(seq![p].drop_last() == Seq::<PriceData>::empty());
    let e = Seq::<PriceData>::empty();
    assert(window_run(c, e, now, agg.dedup_window(), agg.timeout()) == (c, e));
    let (c1, o1) = window_step(c, p, now, agg.dedup_window(), agg.timeout());
    assert(e + o1 == o1);
    assert(window_run(c, seq![p], now, agg.dedup_window(), agg.timeout()) == (c1, o1));
    assert(o1 == seq![p]);
    assert(c1.contains_key(price_key(p)) && c1[price_key(p)].timestamp == now);
    let (c2, o2) = window_step(c1, p, now, agg.dedup_window(), agg.timeout());
    assert(o2 == e);
    assert(o1 + o2 == seq![p]);
}

} // verus!
