use mg_lib::Price;
use mg_lib::Qty;

#[test]
fn qty_arithmetic_is_exact() {
    let a = Qty::from_units(50_000);
    let b = Qty::from_units(30_000);
    assert_eq!(a.min(b), b);
    assert_eq!(b.min(a), b);
    assert_eq!(a.minus(b), Qty::from_units(20_000));
    assert!(Qty::from_units(0).is_zero());
    assert!(!a.is_zero());
    assert_eq!(Qty::from_kwh(5), Qty::from_units(50_000));
}

#[test]
fn prices_compare_by_value_across_scales() {
    let p_020 = Price::new(20, 2).unwrap(); // 0.20
    let p_02 = Price::new(2, 1).unwrap(); // 0.2
    let p_018 = Price::new(18, 2).unwrap(); // 0.18
    let p_1805 = Price::new(1805, 4).unwrap(); // 0.1805
    assert!(p_018.lt(&p_020));
    assert!(!p_020.lt(&p_018));
    assert!(!p_020.lt(&p_02));
    assert!(!p_02.lt(&p_020));
    assert!(p_018.lt(&p_1805));
    assert!(p_1805.lt(&p_020));
}

#[test]
fn deep_scales_are_refused() {
    assert!(Price::new(1, 19).is_some());
    assert!(Price::new(1, 20).is_none());
}
