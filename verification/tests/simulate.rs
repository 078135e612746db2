use mg_lib::simulate::generate_scenario;
use mg_lib::Matcher;
use mg_lib::OrderBook;

#[test]
fn scenario_orders_are_valid_and_named() {
    let orders = generate_scenario("demo", 42, 20);
    assert_eq!(orders.len(), 20);
    for (i, o) in orders.iter().enumerate() {
        assert!(o.validate().is_ok());
        assert_eq!(o.id, format!("demo-42-{}", i));
        assert_eq!(o.remaining_kwh, o.kwh);
        assert!((1..=1_000_000).contains(&o.kwh.units));
        assert!((500..=5000).contains(&o.price.mantissa));
        assert_eq!(o.price.scale, 4);
    }
}

#[test]
fn scenario_is_reproducible_for_a_seed() {
    let a = generate_scenario("itest", 7, 5);
    let b = generate_scenario("itest", 7, 5);
    assert_eq!(a.len(), b.len());
    for (x, y) in a.iter().zip(b.iter()) {
        assert_eq!(x.id, y.id);
        assert_eq!(x.side, y.side);
        assert_eq!(x.kwh, y.kwh);
        assert_eq!(x.price, y.price);
    }
}

#[test]
fn scenario_runs_through_the_matcher() {
    let orders = generate_scenario("itest", 7, 50);
    let mut book = OrderBook::from(orders);
    let matches = Matcher::match_book(&mut book, Some("sim-itest-7".to_string()));
    // whatever traded, the books end one-sided or uncrossed
    if !book.buys.is_empty() && !book.sells.is_empty() {
        assert!(book.buys[0].price.lt(&book.sells[0].price));
    }
    for m in &matches {
        assert!(m.kwh.units > 0);
        assert_eq!(m.run_id.as_deref(), Some("sim-itest-7"));
    }
}
