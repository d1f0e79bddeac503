use rust_engine::{PriceData, TurboAggregator};

fn price(a: &str, b: &str, p: &str, source: &str, timestamp: i64) -> PriceData {
    PriceData {
        token_a: a.to_string(),
        token_b: b.to_string(),
        price: p.to_string(),
        source: source.to_string(),
        timestamp,
    }
}

#[test]
fn test_turbo_aggregator() {
    let mut aggregator = TurboAggregator::new(10000, false);

    let price1 = PriceData {
        token_a: "A".to_string(),
        token_b: "B".to_string(),
        price: "100.5".to_string(),
        source: "dex1".to_string(),
        timestamp: 1000,
    };

    let price2 = price1.clone();

    let prices = vec![price1, price2];
    let aggregated = aggregator.aggregate_prices(prices, 1000, false);

    // Should deduplicate
    assert_eq!(aggregated.len(), 1);
}

#[test]
fn test_median_calculation() {
    let aggregator = TurboAggregator::new(10000, false);

    let prices = vec![
        PriceData {
            token_a: "A".to_string(),
            token_b: "B".to_string(),
            price: "100".to_string(),
            source: "dex1".to_string(),
            timestamp: 1000,
        },
        PriceData {
            token_a: "A".to_string(),
            token_b: "B".to_string(),
            price: "105".to_string(),
            source: "dex2".to_string(),
            timestamp: 1000,
        },
        PriceData {
            token_a: "A".to_string(),
            token_b: "B".to_string(),
            price: "110".to_string(),
            source: "dex3".to_string(),
            timestamp: 1000,
        },
    ];

    // the three prices parse, and are already in ascending order
    let median = aggregator.calculate_median_price(prices, &vec![0, 1, 2]).unwrap();
    assert_eq!(median.price, "105");
}

#[test]
fn median_of_one_is_that_one_even_unparsed() {
    let aggregator = TurboAggregator::new(10000, false);
    let m = aggregator.calculate_median_price(vec![price("A", "B", "n/a", "d", 1)], &Vec::new()).unwrap();
    assert_eq!(m.price, "n/a");
}

#[test]
fn median_of_nothing_is_none() {
    let aggregator = TurboAggregator::new(10000, false);
    assert!(aggregator.calculate_median_price(Vec::new(), &Vec::new()).is_none());
}

#[test]
fn median_without_parsed_prices_is_none() {
    let aggregator = TurboAggregator::new(10000, false);
    let prices = vec![price("A", "B", "x", "d1", 1), price("A", "B", "y", "d2", 1)];
    assert!(aggregator.calculate_median_price(prices, &Vec::new()).is_none());
}

#[test]
fn median_of_even_count_is_upper() {
    let aggregator = TurboAggregator::new(10000, false);
    let prices = vec![
        price("A", "B", "4", "d1", 1),
        price("A", "B", "1", "d2", 1),
        price("A", "B", "3", "d3", 1),
        price("A", "B", "2", "d4", 1),
    ];
    // ascending by value: 1 (index 1), 2 (3), 3 (2), 4 (0)
    let m = aggregator.calculate_median_price(prices, &vec![1, 3, 2, 0]).unwrap();
    assert_eq!(m.price, "3");
}

#[test]
fn cached_value_served_between_window_and_timeout() {
    let mut agg = TurboAggregator::new(10000, false);
    let out = agg.aggregate_prices(vec![price("A", "B", "1.0", "d", 0)], 0, false);
    assert_eq!(out.len(), 1);
    let out = agg.aggregate_prices(vec![price("A", "B", "2.0", "d", 6000)], 6000, false);
    assert_eq!(out.len(), 1);
    assert_eq!(out[0].price, "1.0");
    assert_eq!(agg.get_cache_size(), 1);
}

#[test]
fn within_window_is_dropped_across_calls() {
    let mut agg = TurboAggregator::new(10000, false);
    agg.aggregate_prices(vec![price("A", "B", "1.0", "d", 0)], 0, false);
    let out = agg.aggregate_prices(vec![price("A", "B", "2.0", "d", 4999)], 4999, false);
    assert!(out.is_empty());
}

#[test]
fn stale_entry_is_replaced() {
    let mut agg = TurboAggregator::new(10000, false);
    agg.aggregate_prices(vec![price("A", "B", "1.0", "d", 0)], 0, false);
    let out = agg.aggregate_prices(vec![price("A", "B", "2.0", "d", 10000)], 10000, false);
    assert_eq!(out[0].price, "2.0");
    let out = agg.aggregate_prices(vec![price("A", "B", "3.0", "d", 16000)], 16000, false);
    assert_eq!(out[0].price, "2.0");
}

#[test]
fn distinct_sources_are_distinct_keys() {
    let mut agg = TurboAggregator::new(10000, false);
    let out = agg.aggregate_prices(
        vec![price("A", "B", "1", "d1", 0), price("A", "B", "2", "d2", 0), price("B", "A", "3", "d1", 0)],
        0,
        false,
    );
    assert_eq!(out.len(), 3);
    assert_eq!(agg.get_cache_size(), 3);
}

#[test]
fn lightweight_halves_timeout_and_sweeps() {
    let mut agg = TurboAggregator::new(10000, true);
    agg.aggregate_prices(vec![price("A", "B", "1.0", "d", 0)], 0, true);
    agg.aggregate_prices(vec![price("C", "D", "1.0", "d", 3000)], 3000, true);
    assert_eq!(agg.get_cache_size(), 2);
    // the timeout is 5000: at 6000 the first entry is swept, the second stays
    let out = agg.aggregate_prices(vec![price("A", "B", "2.0", "d", 6000)], 6000, true);
    assert_eq!(out[0].price, "2.0");
    assert_eq!(agg.get_cache_size(), 2);
    let out = agg.aggregate_prices(Vec::new(), 9000, true);
    assert!(out.is_empty());
    assert_eq!(agg.get_cache_size(), 1);
}

#[test]
fn clear_cache_empties() {
    let mut agg = TurboAggregator::new(10000, false);
    agg.aggregate_prices(vec![price("A", "B", "1", "d", 0)], 0, false);
    agg.clear_cache();
    assert_eq!(agg.get_cache_size(), 0);
    let out = agg.aggregate_prices(vec![price("A", "B", "2", "d", 1)], 1, false);
    assert_eq!(out[0].price, "2");
}

#[test]
fn dashes_inside_fields_do_not_merge_keys() {
    let mut agg = TurboAggregator::new(10000, false);
    let out = agg.aggregate_prices(vec![price("A-B", "C", "1", "d", 0), price("A", "B-C", "2", "d", 0)], 0, false);
    assert_eq!(out.len(), 2);
    assert_eq!(out[0].price, "1");
    assert_eq!(out[1].price, "2");
    assert_eq!(agg.get_cache_size(), 2);
}
