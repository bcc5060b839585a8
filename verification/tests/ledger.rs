use asset_balance::category::{categorize, contains_text, stable_coins, CategorizedLedger, STABLECOIN_KEY};
use asset_balance::dedup::{check_duplicate_account, contains_duplicate};
use asset_balance::errors::ZkErrorCode;
use asset_balance::ledger::{AmountPair, AssetEntry, AssetLedger, BalanceRow};
use std::collections::HashMap;

const EPSILON_VALUE: f64 = 0.00000000001;

fn row(asset: &str, first: &str, second: &str) -> BalanceRow {
    BalanceRow {
        asset: asset.to_string(),
        amounts: AmountPair { first: first.to_string(), second: second.to_string() },
    }
}

fn ledger_of(rows: &[(&str, &str, &str)]) -> AssetLedger {
    let mut ledger = AssetLedger::new();
    for (asset, first, second) in rows {
        ledger.add(row(asset, first, second));
    }
    ledger
}

fn entry_total(entry: &AssetEntry) -> f64 {
    let mut total = 0.0;
    for pair in &entry.terms {
        let first: f64 = pair.first.parse().unwrap_or(0.0);
        let second: f64 = pair.second.parse().unwrap_or(0.0);
        total += first + second;
    }
    total
}

fn summary(split: &CategorizedLedger) -> HashMap<String, f64> {
    let mut out = HashMap::new();
    let mut stablecoin_sum = 0.0;
    for entry in &split.stablecoin {
        stablecoin_sum += entry_total(entry);
    }
    for entry in &split.assets {
        let v = entry_total(entry);
        if v.abs() > EPSILON_VALUE {
            out.insert(entry.asset.clone(), v);
        }
    }
    if stablecoin_sum.abs() > EPSILON_VALUE {
        out.insert(STABLECOIN_KEY.to_string(), stablecoin_sum);
    }
    out
}

fn totals(ledger: &AssetLedger) -> Vec<(String, f64)> {
    let mut all: Vec<(String, f64)> =
        ledger.entries().iter().map(|e| (e.asset.clone(), entry_total(e))).collect();
    all.sort_by(|a, b| a.0.cmp(&b.0));
    all
}

fn texts(items: &[&str]) -> Vec<String> {
    items.iter().map(|s| s.to_string()).collect()
}

#[test]
fn new_ledger_is_empty() {
    assert!(AssetLedger::new().entries().is_empty());
}

#[test]
fn ledger_keeps_one_entry_for_each_asset() {
    let ledger = ledger_of(&[
        ("BTC", "1", "0.5"),
        ("ETH", "2", "0"),
        ("BTC", "0.25", "0"),
        ("USDT", "10", "0"),
        ("ETH", "1", "1"),
    ]);
    let entries = ledger.entries();
    assert_eq!(entries.len(), 3);
    assert_eq!(entries[0].asset, "BTC");
    assert_eq!(entries[1].asset, "ETH");
    assert_eq!(entries[2].asset, "USDT");
    assert_eq!(entries[0].terms.len(), 2);
    assert_eq!(entries[0].terms[1].first, "0.25");
    assert_eq!(entry_total(&entries[0]), 1.75);
    assert_eq!(entry_total(&entries[1]), 4.0);
    assert_eq!(entry_total(&entries[2]), 10.0);
}

#[test]
fn add_all_is_add_in_order() {
    let mut one = AssetLedger::new();
    one.add_all(vec![row("BTC", "1", "2"), row("ETH", "3", "4"), row("BTC", "5", "6")]);
    let two = ledger_of(&[("BTC", "1", "2"), ("ETH", "3", "4"), ("BTC", "5", "6")]);
    assert_eq!(one.entries().len(), 2);
    for (a, b) in one.entries().iter().zip(two.entries().iter()) {
        assert_eq!(a.asset, b.asset);
        assert_eq!(a.terms.len(), b.terms.len());
        for (x, y) in a.terms.iter().zip(b.terms.iter()) {
            assert_eq!(x.first, y.first);
            assert_eq!(x.second, y.second);
        }
    }
}

#[test]
fn ledger_does_not_depend_on_the_order_of_the_rows() {
    let rows = [
        ("BTC", "1", "0.5"),
        ("ETH", "2", "0"),
        ("BTC", "0.25", "0"),
        ("USDT", "10", "0"),
        ("ETH", "1", "1"),
        ("USDT", "4", "2"),
    ];
    let expected = totals(&ledger_of(&rows));
    let orders: [[usize; 6]; 4] =
        [[5, 4, 3, 2, 1, 0], [1, 0, 3, 2, 5, 4], [2, 5, 0, 4, 1, 3], [3, 1, 4, 0, 5, 2]];
    for order in orders {
        let permuted: Vec<(&str, &str, &str)> = order.iter().map(|i| rows[*i]).collect();
        assert_eq!(totals(&ledger_of(&permuted)), expected);
    }
    assert_eq!(
        expected,
        vec![("BTC".to_string(), 1.75), ("ETH".to_string(), 4.0), ("USDT".to_string(), 16.0)]
    );
}

#[test]
fn categorize_folds_stablecoins_and_keeps_what_is_above_the_threshold() {
    let ledger = ledger_of(&[
        ("USDT", "100.0", "0"),
        ("BTC", "0.0000000001", "0"),
        ("ETH", "2.0", "0"),
    ]);
    let split = categorize(&ledger, &stable_coins());
    assert_eq!(split.stablecoin.len(), 1);
    assert_eq!(split.stablecoin[0].asset, "USDT");
    assert_eq!(split.assets.len(), 2);
    let out = summary(&split);
    assert_eq!(out.get("STABLECOIN"), Some(&100.0));
    assert_eq!(out.get("ETH"), Some(&2.0));
    assert_eq!(out.get("USDT"), None);
    assert_eq!(out.get("BTC"), Some(&0.0000000001));
    assert_eq!(out.len(), 3);
}

#[test]
fn categorize_drops_an_asset_at_or_below_the_threshold() {
    let ledger = ledger_of(&[
        ("USDT", "100.0", "0"),
        ("BTC", "0.000000000001", "0"),
        ("DOGE", "0.00000000001", "0"),
        ("ETH", "2.0", "0"),
    ]);
    let out = summary(&categorize(&ledger, &stable_coins()));
    assert_eq!(out.get("BTC"), None);
    assert_eq!(out.get("DOGE"), None);
    assert_eq!(out.get("ETH"), Some(&2.0));
    assert_eq!(out.get("STABLECOIN"), Some(&100.0));
    assert_eq!(out.len(), 2);
}

#[test]
fn every_listed_stablecoin_goes_into_the_bucket() {
    let names = ["USDT", "USDC", "FDUSD", "TUSD", "USDE", "XUSD", "USD1", "BFUSD", "USDP", "DAI", "USDF"];
    assert_eq!(stable_coins(), texts(&names));
    let mut ledger = AssetLedger::new();
    for name in names {
        ledger.add(row(name, "1", "0"));
    }
    ledger.add(row("BTC", "1", "0"));
    let split = categorize(&ledger, &stable_coins());
    assert_eq!(split.stablecoin.len(), 11);
    assert_eq!(split.assets.len(), 1);
    let out = summary(&split);
    assert_eq!(out.get("STABLECOIN"), Some(&11.0));
    assert_eq!(out.get("BTC"), Some(&1.0));
    assert_eq!(out.len(), 2);
}

#[test]
fn stablecoin_total_below_the_threshold_leaves_no_reserved_key() {
    let ledger = ledger_of(&[("USDT", "5", "0"), ("USDC", "-5", "0"), ("ETH", "1", "0")]);
    let out = summary(&categorize(&ledger, &stable_coins()));
    assert_eq!(out.get("STABLECOIN"), None);
    assert_eq!(out.get("ETH"), Some(&1.0));
    assert_eq!(out.len(), 1);
}

#[test]
fn asset_under_the_reserved_key_is_not_kept() {
    let ledger = ledger_of(&[("STABLECOIN", "5", "0"), ("ETH", "1", "0")]);
    let split = categorize(&ledger, &stable_coins());
    assert!(split.stablecoin.is_empty());
    assert_eq!(split.assets.len(), 1);
    assert_eq!(split.assets[0].asset, "ETH");
    assert_eq!(summary(&split).get("STABLECOIN"), None);
}

#[test]
fn negative_balance_beyond_the_threshold_is_kept() {
    let ledger = ledger_of(&[("BTC", "-1.5", "0.5")]);
    let out = summary(&categorize(&ledger, &stable_coins()));
    assert_eq!(out.get("BTC"), Some(&-1.0));
}

#[test]
fn stablecoin_list_can_be_replaced() {
    let ledger = ledger_of(&[("USDT", "5", "0"), ("EURX", "2", "1"), ("ETH", "1", "0")]);
    let split = categorize(&ledger, &texts(&["EURX"]));
    assert_eq!(split.stablecoin.len(), 1);
    assert_eq!(split.stablecoin[0].asset, "EURX");
    assert_eq!(split.assets.len(), 2);
    let out = summary(&split);
    assert_eq!(out.get("STABLECOIN"), Some(&3.0));
    assert_eq!(out.get("USDT"), Some(&5.0));
}

#[test]
fn categorize_of_an_empty_ledger_is_empty() {
    let split = categorize(&AssetLedger::new(), &stable_coins());
    assert!(split.stablecoin.is_empty());
    assert!(split.assets.is_empty());
    assert!(summary(&split).is_empty());
}

#[test]
fn contains_text_is_membership() {
    let list = stable_coins();
    assert!(contains_text(&list, "USDT"));
    assert!(contains_text(&list, "USDF"));
    assert!(!contains_text(&list, "usdt"));
    assert!(!contains_text(&list, "USD"));
    assert!(!contains_text(&Vec::new(), "USDT"));
}

#[test]
fn duplicate_is_found_wherever_it_stands() {
    assert!(!contains_duplicate(&texts(&[])));
    assert!(!contains_duplicate(&texts(&["a"])));
    assert!(!contains_duplicate(&texts(&["a", "b", "c", "A"])));
    assert!(contains_duplicate(&texts(&["a", "a"])));
    assert!(contains_duplicate(&texts(&["a", "b", "c", "a"])));
    assert!(contains_duplicate(&texts(&["x", "b", "c", "c"])));
    assert!(contains_duplicate(&texts(&["", "b", ""])));
}

#[test]
fn duplicate_does_not_depend_on_the_order_of_the_keys() {
    let keys = ["k1", "k2", "k3", "k2", "k4"];
    let orders: [[usize; 5]; 3] = [[4, 3, 2, 1, 0], [1, 3, 0, 2, 4], [0, 2, 4, 1, 3]];
    for order in orders {
        let permuted: Vec<String> = order.iter().map(|i| keys[*i].to_string()).collect();
        assert!(contains_duplicate(&permuted));
    }
    let keys = ["k1", "k2", "k3", "k5", "k4"];
    for order in orders {
        let permuted: Vec<String> = order.iter().map(|i| keys[*i].to_string()).collect();
        assert!(!contains_duplicate(&permuted));
    }
}

#[test]
fn check_duplicate_account_gives_the_code() {
    assert!(check_duplicate_account(&texts(&["1", "2"])).is_ok());
    let e = check_duplicate_account(&texts(&["12345", "12345"])).err().unwrap();
    assert_eq!(e.code(), ZkErrorCode::DuplicateAccount);
    assert_eq!(e.msg(), "ZkErrorCode::DuplicateAccount");
}
