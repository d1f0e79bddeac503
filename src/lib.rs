//! Bounded in-memory caches for a market-data pipeline: a key deduplicator,
//! a time-windowed price aggregator and a profit-filtering opportunity scanner.
//! Each engine is a plain owned value; sharing it between threads (behind a
//! reader-writer lock) and holding the process-wide lightweight flag is the
//! host's business, which hands the flag to every call that reads it.

mod containers;

pub mod types;
pub mod deduplicator;
pub mod turbo_aggregator;
pub mod turbo_scanner;

pub use types::{Opportunity, PriceData};
pub use deduplicator::{Deduplicator, DedupResult};
pub use turbo_aggregator::TurboAggregator;
pub use turbo_scanner::TurboScanner;
