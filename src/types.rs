//! The records that the host hands to the engines.

use vstd::prelude::*;

verus! {

/// A candidate trade route: the tokens along `path`, traded on `dexes`.
#[derive(Debug, Clone)]
pub struct Opportunity {
    pub path: Vec<String>,
    pub dexes: Vec<String>,
    pub input_amount: String,
    pub output_amount: String,
    pub profit: String,
    pub profit_bps: i32,
    pub timestamp: i64,
}

/// One price observation of `token_a` in `token_b` from `source`.
#[derive(Debug)]
pub struct PriceData {
    pub token_a: String,
    pub token_b: String,
    pub price: String,
    pub source: String,
    pub timestamp: i64,
}

impl Clone for PriceData {
    fn clone(&self) -> (r: Self)
        ensures
            r == *self,
    {
        PriceData {
            token_a: self.token_a.clone(),
            token_b: self.token_b.clone(),
            price: self.price.clone(),
            source: self.source.clone(),
            timestamp: self.timestamp,
        }
    }
}

/// The aggregator's cache key: `(token_a, token_b, source)`.
pub type PriceKey = (String, String, String);

/// The characters of each field of a cache key.
pub type PriceKeyView = (Seq<char>, Seq<char>, Seq<char>);

/// A price observation as the aggregator keeps it, with the time it was taken in.
pub struct CachedPrice {
    pub data: PriceData,
    pub timestamp: i64,
}

} // verus!
