use mg_lib::Ledger;
use mg_lib::MatchRecord;
use mg_lib::Price;
use mg_lib::Qty;

fn record(buy: &str, sell: &str, kwh_units: u64) -> MatchRecord {
    MatchRecord {
        buy_order_id: buy.to_string(),
        sell_order_id: sell.to_string(),
        kwh: Qty::from_units(kwh_units),
        price: Price::new(12, 2).unwrap(),
        timestamp: 0,
        run_id: None,
    }
}

#[test]
fn ledger_append_and_extend_keep_order() {
    let mut l = Ledger::new();
    assert!(l.entries.is_empty());
    l.append(record("b1", "s1", 10_000));
    l.extend(vec![record("b2", "s1", 5_000), record("b3", "s2", 2_500)]);
    assert_eq!(l.entries.len(), 3);
    assert_eq!(l.entries[0].buy_order_id, "b1");
    assert_eq!(l.entries[1].buy_order_id, "b2");
    assert_eq!(l.entries[2].buy_order_id, "b3");
}

#[test]
fn default_ledger_is_empty() {
    let l = Ledger::default();
    assert!(l.entries.is_empty());
}
