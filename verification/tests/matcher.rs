use mg_lib::Matcher;
use mg_lib::Order;
use mg_lib::OrderBook;
use mg_lib::Price;
use mg_lib::Qty;
use mg_lib::Side;

fn order(id: &str, side: Side, kwh_units: u64, price: Price, ts: i64) -> Order {
    Order {
        id: id.to_string(),
        tenant_id: "t".to_string(),
        side,
        kwh: Qty::from_units(kwh_units),
        price,
        timestamp: ts,
        remaining_kwh: Qty::from_units(0),
    }
}

fn price(mantissa: u64, scale: u32) -> Price {
    Price::new(mantissa, scale).unwrap()
}

#[test]
fn test_simple_fill() {
    // buy 5 kWh @ 0.20 against sell 3 kWh @ 0.18
    let buy = order("b1", Side::Buy, 50_000, price(20, 2), 0);
    let sell = order("s1", Side::Sell, 30_000, price(18, 2), 1);

    let mut book = OrderBook::from(vec![buy, sell]);
    let matches = Matcher::match_book(&mut book, Some("run1".to_string()));
    assert_eq!(matches.len(), 1);
    assert_eq!(matches[0].kwh, Qty::from_units(30_000));
    assert_eq!(book.buys.len(), 1);
    assert_eq!(book.buys[0].remaining_kwh, Qty::from_units(20_000));
}

#[test]
fn test_no_cross() {
    // buy 1 kWh @ 0.10 against sell 1 kWh @ 0.20
    let buy = order("b1", Side::Buy, 10_000, price(10, 2), 0);
    let sell = order("s1", Side::Sell, 10_000, price(20, 2), 1);

    let mut book = OrderBook::from(vec![buy, sell]);
    let matches = Matcher::match_book(&mut book, None);
    assert!(matches.is_empty());
}

#[test]
fn no_cross_leaves_orders_untouched() {
    let buy = order("b1", Side::Buy, 10_000, price(10, 2), 0);
    let sell = order("s1", Side::Sell, 10_000, price(20, 2), 1);

    let mut book = OrderBook::from(vec![buy, sell]);
    let matches = Matcher::match_book(&mut book, None);
    assert!(matches.is_empty());
    assert_eq!(book.buys.len(), 1);
    assert_eq!(book.sells.len(), 1);
    assert_eq!(book.buys[0].remaining_kwh, Qty::from_units(10_000));
    assert_eq!(book.sells[0].remaining_kwh, Qty::from_units(10_000));
}

#[test]
fn trade_executes_at_sell_price() {
    let buy = order("b1", Side::Buy, 50_000, price(20, 2), 0);
    let sell = order("s1", Side::Sell, 30_000, price(18, 2), 1);

    let mut book = OrderBook::from(vec![buy, sell]);
    let matches = Matcher::match_book(&mut book, None);
    assert_eq!(matches.len(), 1);
    assert_eq!(matches[0].price, price(18, 2));
    assert_eq!(matches[0].buy_order_id, "b1");
    assert_eq!(matches[0].sell_order_id, "s1");
}

#[test]
fn equal_scaled_prices_cross() {
    // 0.2 and 0.20 denote the same value at different scales
    let buy = order("b1", Side::Buy, 10_000, price(2, 1), 0);
    let sell = order("s1", Side::Sell, 10_000, price(20, 2), 1);

    let mut book = OrderBook::from(vec![buy, sell]);
    let matches = Matcher::match_book(&mut book, None);
    assert_eq!(matches.len(), 1);
    assert_eq!(matches[0].price, price(20, 2));
    assert!(book.buys.is_empty());
    assert!(book.sells.is_empty());
}

#[test]
fn one_buy_sweeps_cheaper_asks_first() {
    // a big bid fills the cheaper ask before the dearer one
    let buy = order("b1", Side::Buy, 80_000, price(30, 2), 0);
    let cheap = order("s1", Side::Sell, 30_000, price(18, 2), 5);
    let dear = order("s2", Side::Sell, 30_000, price(25, 2), 1);

    let mut book = OrderBook::from(vec![buy, dear, cheap]);
    let matches = Matcher::match_book(&mut book, None);
    assert_eq!(matches.len(), 2);
    assert_eq!(matches[0].sell_order_id, "s1");
    assert_eq!(matches[0].price, price(18, 2));
    assert_eq!(matches[1].sell_order_id, "s2");
    assert_eq!(matches[1].price, price(25, 2));
    assert_eq!(book.buys[0].remaining_kwh, Qty::from_units(20_000));
    assert!(book.sells.is_empty());
}

#[test]
fn equal_price_fifo_by_timestamp() {
    // two bids at the same price: the earlier timestamp trades first
    let early = order("b-early", Side::Buy, 10_000, price(20, 2), 100);
    let late = order("b-late", Side::Buy, 10_000, price(20, 2), 200);
    let sell = order("s1", Side::Sell, 10_000, price(20, 2), 0);

    let mut book = OrderBook::from(vec![late, early, sell]);
    let matches = Matcher::match_book(&mut book, None);
    assert_eq!(matches.len(), 1);
    assert_eq!(matches[0].buy_order_id, "b-early");
    assert_eq!(book.buys.len(), 1);
    assert_eq!(book.buys[0].id, "b-late");
}

#[test]
fn conservation_over_partial_fills() {
    // one ask split over three bids; fills total exactly its size
    let b1 = order("b1", Side::Buy, 20_000, price(30, 2), 0);
    let b2 = order("b2", Side::Buy, 20_000, price(29, 2), 1);
    let b3 = order("b3", Side::Buy, 20_000, price(28, 2), 2);
    let ask = order("s1", Side::Sell, 50_000, price(10, 2), 3);

    let mut book = OrderBook::from(vec![b1, b2, b3, ask]);
    let matches = Matcher::match_book(&mut book, None);
    assert_eq!(matches.len(), 3);
    let total: u64 = matches.iter().map(|m| m.kwh.units).sum();
    assert_eq!(total, 50_000);
    // bids were served in descending price order
    assert_eq!(matches[0].buy_order_id, "b1");
    assert_eq!(matches[1].buy_order_id, "b2");
    assert_eq!(matches[2].buy_order_id, "b3");
    // the last bid is only half filled
    assert_eq!(book.buys.len(), 1);
    assert_eq!(book.buys[0].id, "b3");
    assert_eq!(book.buys[0].remaining_kwh, Qty::from_units(10_000));
    assert!(book.sells.is_empty());
}

#[test]
fn run_id_propagates_to_every_record() {
    let b1 = order("b1", Side::Buy, 20_000, price(30, 2), 0);
    let b2 = order("b2", Side::Buy, 20_000, price(29, 2), 1);
    let ask = order("s1", Side::Sell, 40_000, price(10, 2), 2);

    let mut book = OrderBook::from(vec![b1, b2, ask]);
    let matches = Matcher::match_book(&mut book, Some("pass-7".to_string()));
    assert_eq!(matches.len(), 2);
    for m in &matches {
        assert_eq!(m.run_id.as_deref(), Some("pass-7"));
    }
}

#[test]
fn validation_rejects_zero_kwh() {
    let o = order("b1", Side::Buy, 0, price(20, 2), 0);
    let r = o.validate();
    assert_eq!(r.unwrap_err(), "kwh must be > 0");
}

#[test]
fn validation_rejects_nonpositive_price() {
    let o = order("b1", Side::Buy, 10_000, Price { mantissa: 0, scale: 0 }, 0);
    let r = o.validate();
    assert_eq!(r.unwrap_err(), "price must be > 0");
}

#[test]
fn validation_rejects_oversized_kwh() {
    // just over the 1_000_000 kWh ceiling
    let o = order("b1", Side::Buy, 10_000_000_001, price(20, 2), 0);
    let r = o.validate();
    assert_eq!(r.unwrap_err(), "kwh exceeds max allowed");
    let ok = order("b2", Side::Buy, 10_000_000_000, price(20, 2), 0);
    assert!(ok.validate().is_ok());
}

#[test]
fn rejected_orders_never_reach_the_book() {
    // the validation gate keeps bad orders out; the rest trade normally
    let good_buy = order("b1", Side::Buy, 10_000, price(20, 2), 0);
    let bad = order("b2", Side::Buy, 0, price(50, 2), 1);
    let good_sell = order("s1", Side::Sell, 10_000, price(18, 2), 2);

    let admitted: Vec<Order> = vec![good_buy, bad, good_sell]
        .into_iter()
        .filter(|o| o.validate().is_ok())
        .collect();
    assert_eq!(admitted.len(), 2);
    let mut book = OrderBook::from(admitted);
    let matches = Matcher::match_book(&mut book, None);
    assert_eq!(matches.len(), 1);
    assert_eq!(matches[0].kwh, Qty::from_units(10_000));
}

#[test]
fn side_tokens_parse_case_insensitively() {
    assert_eq!(Side::from_token("buy"), Some(Side::Buy));
    assert_eq!(Side::from_token("BUY"), Some(Side::Buy));
    assert_eq!(Side::from_token("b"), Some(Side::Buy));
    assert_eq!(Side::from_token("sell"), Some(Side::Sell));
    assert_eq!(Side::from_token("SeLl"), Some(Side::Sell));
    assert_eq!(Side::from_token("S"), Some(Side::Sell));
    assert_eq!(Side::from_token("hold"), None);
    assert_eq!(Side::from_token(""), None);
}

#[test]
fn normalize_keeps_grid_quantities() {
    let mut o = order("b1", Side::Buy, 12_345, price(20, 2), 0);
    o.remaining_kwh = Qty::from_units(12_345);
    o.normalize();
    assert_eq!(o.remaining_kwh, Qty::from_units(12_345));
}

#[test]
fn book_defaults_remaining_to_full_size() {
    let o = order("b1", Side::Buy, 42_000, price(20, 2), 0);
    let book = OrderBook::from(vec![o]);
    assert_eq!(book.buys.len(), 1);
    assert_eq!(book.buys[0].remaining_kwh, Qty::from_units(42_000));
    assert!(book.sells.is_empty());
}
