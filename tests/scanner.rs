use rust_engine::{Opportunity, TurboScanner};

fn opportunity(path: &[&str], dexes: &[&str], profit_bps: i32) -> Opportunity {
    Opportunity {
        path: path.iter().map(|s| s.to_string()).collect(),
        dexes: dexes.iter().map(|s| s.to_string()).collect(),
        input_amount: "1000".to_string(),
        output_amount: "1100".to_string(),
        profit: "100".to_string(),
        profit_bps,
        timestamp: 0,
    }
}

#[test]
fn test_turbo_scanner() {
    let mut scanner = TurboScanner::new(50);

    let opp = Opportunity {
        path: vec!["A".to_string(), "B".to_string()],
        dexes: vec!["dex1".to_string()],
        input_amount: "1000".to_string(),
        output_amount: "1100".to_string(),
        profit: "100".to_string(),
        profit_bps: 100,
        timestamp: 0,
    };

    let filtered = scanner.filter_opportunities(vec![opp.clone()], false);
    assert_eq!(filtered.len(), 1);

    // Second time should be filtered out (duplicate)
    let filtered2 = scanner.filter_opportunities(vec![opp], false);
    assert_eq!(filtered2.len(), 0);
}

#[test]
fn below_minimum_never_passes() {
    let mut scanner = TurboScanner::new(50);
    let out = scanner.filter_opportunities(vec![opportunity(&["A", "B"], &["d"], 49)], false);
    assert!(out.is_empty());
    assert_eq!(scanner.get_cache_size(), 0);
    let out = scanner.filter_opportunities(vec![opportunity(&["A", "B"], &["d"], 50)], false);
    assert_eq!(out.len(), 1);
}

#[test]
fn separators_keep_routes_apart() {
    let mut scanner = TurboScanner::new(0);
    let out = scanner.filter_opportunities(
        vec![
            opportunity(&["A", "B"], &["x"], 10),
            opportunity(&["A"], &["B", "x"], 10),
            opportunity(&["A", "B"], &["x"], 20),
        ],
        false,
    );
    assert_eq!(out.len(), 2);
    assert_eq!(out[1].path, vec!["A".to_string()]);
    assert_eq!(scanner.get_cache_size(), 2);
}

#[test]
fn scan_count_counts_calls_and_reset_zeroes() {
    let mut scanner = TurboScanner::new(0);
    scanner.filter_opportunities(Vec::new(), false);
    scanner.filter_opportunities(vec![opportunity(&["A"], &["d"], 1), opportunity(&["B"], &["d"], 1)], false);
    assert_eq!(scanner.get_scan_count(), 2);
    assert_eq!(scanner.get_cache_size(), 2);
    scanner.reset();
    assert_eq!(scanner.get_scan_count(), 0);
    assert_eq!(scanner.get_cache_size(), 0);
    let out = scanner.filter_opportunities(vec![opportunity(&["A"], &["d"], 1)], false);
    assert_eq!(out.len(), 1);
}

#[test]
fn lightweight_overflow_clears_all() {
    let mut scanner = TurboScanner::new(0);
    let batch: Vec<Opportunity> = (0..1001).map(|i| opportunity(&["T", &format!("{}", i)], &["d"], 1)).collect();
    assert_eq!(scanner.filter_opportunities(batch, true).len(), 1001);
    assert_eq!(scanner.get_cache_size(), 1001);
    let out = scanner.filter_opportunities(vec![opportunity(&["new"], &["d"], 1)], true);
    assert_eq!(out.len(), 1);
    assert_eq!(scanner.get_cache_size(), 1);
    // a route forgotten by the clear passes again
    let out = scanner.filter_opportunities(vec![opportunity(&["T", "0"], &["d"], 1)], true);
    assert_eq!(out.len(), 1);
}

#[test]
fn normal_mode_never_clears() {
    let mut scanner = TurboScanner::new(0);
    let batch: Vec<Opportunity> = (0..1005).map(|i| opportunity(&["T", &format!("{}", i)], &["d"], 1)).collect();
    scanner.filter_opportunities(batch, false);
    scanner.filter_opportunities(vec![opportunity(&["new"], &["d"], 1)], false);
    assert_eq!(scanner.get_cache_size(), 1006);
}
