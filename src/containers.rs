//! The hash containers of the `ahash` crate, as the engines use them.
//!
//! A set of strings is seen through `key_set_of`, a map from strings to
//! cached prices through `price_map_of`. Every operation that the engines
//! perform on them goes through one of the wrappers below, whose contracts
//! restate what the std `HashSet` / `HashMap` behind `ahash`'s types does.

use vstd::prelude::*;
use ahash::{AHashMap, AHashSet};
use crate::types::{CachedPrice, PriceKey, PriceKeyView};

verus! {

#[verifier::external_type_specification]
#[verifier::external_body]
pub struct ExRandomState(ahash::RandomState);

#[verifier::external_type_specification]
#[verifier::external_body]
#[verifier::reject_recursive_types(T)]
#[verifier::reject_recursive_types(S)]
pub struct ExAHashSet<T, S>(AHashSet<T, S>);

#[verifier::external_type_specification]
#[verifier::external_body]
#[verifier::reject_recursive_types(K)]
#[verifier::reject_recursive_types(V)]
#[verifier::reject_recursive_types(S)]
pub struct ExAHashMap<K, V, S>(AHashMap<K, V, S>);

/// The strings that a set holds.
pub uninterp spec fn key_set_of(s: AHashSet<String>) -> Set<Seq<char>>;

/// The entries that a price map holds, by the characters of each key field.
pub uninterp spec fn price_map_of(m: AHashMap<PriceKey, CachedPrice>) -> Map<PriceKeyView, CachedPrice>;

/// Relies on `AHashSet::new`: the new set is empty.
#[verifier::external_body]
pub fn key_set_new() -> (r: AHashSet<String>)
    ensures
        key_set_of(r) == Set::<Seq<char>>::empty(),
{
    AHashSet::new()
}

/// Relies on `HashSet::contains` (reached through `AHashSet`'s `Deref`).
#[verifier::external_body]
pub fn key_set_contains(s: &AHashSet<String>, k: &String) -> (r: bool)
    ensures
        r == key_set_of(*s).contains(k@),
{
    s.contains(k)
}

/// Relies on `HashSet::insert`: the key is added, the others stay.
#[verifier::external_body]
pub fn key_set_insert(s: &mut AHashSet<String>, k: String)
    ensures
        key_set_of(*final(s)) == key_set_of(*old(s)).insert(k@),
{
    s.insert(k);
}

/// Relies on `HashSet::len`: the number of keys held.
#[verifier::external_body]
pub fn key_set_len(s: &AHashSet<String>) -> (r: usize)
    ensures
        r == key_set_of(*s).len(),
{
    s.len()
}

/// Relies on `HashSet::clear`: no key is left.
#[verifier::external_body]
pub fn key_set_clear(s: &mut AHashSet<String>)
    ensures
        key_set_of(*final(s)) == Set::<Seq<char>>::empty(),
{
    s.clear();
}

/// Relies on `HashSet::iter`, which visits every key once in an unspecified
/// order, cut to its first `n` items: so up to `n` distinct keys of the set.
#[verifier::external_body]
pub fn key_set_sample(s: &AHashSet<String>, n: usize) -> (r: Vec<String>)
    ensures
        r.len() == if n <= key_set_of(*s).len() { n as int } else { key_set_of(*s).len() as int },
        forall|i: int| 0 <= i < r.len() ==> key_set_of(*s).contains(#[trigger] r[i]@),
        forall|i: int, j: int| 0 <= i < j < r.len() ==> #[trigger] r[i]@ != #[trigger] r[j]@,
{
    s.iter().take(n).cloned().collect()
}

/// Relies on `AHashMap::new`: the new map is empty.
#[verifier::external_body]
pub fn price_map_new() -> (r: AHashMap<PriceKey, CachedPrice>)
    ensures
        price_map_of(r) =~= Map::empty(),
{
    AHashMap::new()
}

/// Relies on `AHashMap::get`: the entry under the key, if there is one.
#[verifier::external_body]
pub fn price_map_get<'a>(m: &'a AHashMap<PriceKey, CachedPrice>, k: &PriceKey) -> (r: Option<&'a CachedPrice>)
    ensures
        match r {
            Some(v) => price_map_of(*m).contains_key(k@) && *v == price_map_of(*m)[k@],
            None => !price_map_of(*m).contains_key(k@),
        },
{
    m.get(k)
}

/// Relies on `AHashMap::insert`: the key now maps to `v`, other entries stay.
#[verifier::external_body]
pub fn price_map_insert(m: &mut AHashMap<PriceKey, CachedPrice>, k: PriceKey, v: CachedPrice)
    ensures
        price_map_of(*final(m)) == price_map_of(*old(m)).insert(k@, v),
{
    m.insert(k, v);
}

/// Relies on `HashMap::len`: the number of entries held.
#[verifier::external_body]
pub fn price_map_len(m: &AHashMap<PriceKey, CachedPrice>) -> (r: usize)
    ensures
        r == price_map_of(*m).len(),
{
    m.len()
}

/// Relies on `HashMap::clear`: no entry is left.
#[verifier::external_body]
pub fn price_map_clear(m: &mut AHashMap<PriceKey, CachedPrice>)
    ensures
        price_map_of(*final(m)) =~= Map::empty(),
{
    m.clear();
}

/// Relies on `HashMap::retain`: exactly the entries that `is_fresh` accepts
/// at `now` under `timeout` stay, unchanged.
#[verifier::external_body]
pub fn price_map_retain_fresh(m: &mut AHashMap<PriceKey, CachedPrice>, now: i64, timeout: i64)
    ensures
        price_map_of(*final(m)) == fresh_entries(price_map_of(*old(m)), now, timeout),
{
    m.retain(|_, v| is_fresh(v, now, timeout));
}

/// Whether an entry taken in at `entry.timestamp` is younger than `timeout` at `now`.
pub open spec fn fresh_at(entry: CachedPrice, now: i64, timeout: i64) -> bool {
    now - entry.timestamp < timeout
}

/// The entries of `m` that are still fresh at `now`.
pub open spec fn fresh_entries(m: Map<PriceKeyView, CachedPrice>, now: i64, timeout: i64) -> Map<PriceKeyView, CachedPrice> {
    m.restrict(m.dom().filter(|k: PriceKeyView| fresh_at(m[k], now, timeout)))
}

pub fn is_fresh(entry: &CachedPrice, now: i64, timeout: i64) -> (r: bool)
    ensures
        r == fresh_at(*entry, now, timeout),
{
    (now as i128) - (entry.timestamp as i128) < timeout as i128
}

} // verus!
