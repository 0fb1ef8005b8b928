use enki::price::order_key;
use ordered_float::OrderedFloat;

fn samples() -> Vec<f64> {
    vec![
        f64::NEG_INFINITY,
        f64::MIN,
        -65000.0,
        -1.5,
        -f64::MIN_POSITIVE,
        -5e-324,
        -0.0,
        0.0,
        5e-324,
        f64::MIN_POSITIVE,
        0.052,
        1.0,
        3400.0,
        64967.5,
        65000.0,
        f64::MAX,
        f64::INFINITY,
        f64::NAN,
        -f64::NAN,
        f64::from_bits(0x7FF0_0000_0000_0001),
        f64::from_bits(0xFFFF_FFFF_FFFF_FFFF),
    ]
}

#[test]
fn order_key_orders_like_ordered_float() {
    let xs = samples();
    for &a in &xs {
        for &b in &xs {
            let by_key = order_key(a.to_bits()).cmp(&order_key(b.to_bits()));
            let by_float = OrderedFloat(a).cmp(&OrderedFloat(b));
            assert_eq!(by_key, by_float, "{a:?} vs {b:?}");
        }
    }
}

#[test]
fn order_key_exact_values() {
    assert_eq!(order_key(0.0f64.to_bits()), 0x8000_0000_0000_0000);
    assert_eq!(order_key((-0.0f64).to_bits()), 0x8000_0000_0000_0000);
    assert_eq!(order_key(1.0f64.to_bits()), 0x3FF0_0000_0000_0000 + 0x8000_0000_0000_0000);
    assert_eq!(order_key((-1.0f64).to_bits()), !0xBFF0_0000_0000_0000u64);
    assert_eq!(order_key(f64::NAN.to_bits()), u64::MAX);
    assert_eq!(order_key(f64::INFINITY.to_bits()), 0xFFF0_0000_0000_0000);
}

#[test]
fn equal_keys_exactly_for_equal_prices() {
    let xs = samples();
    for &a in &xs {
        for &b in &xs {
            let same = order_key(a.to_bits()) == order_key(b.to_bits());
            assert_eq!(same, OrderedFloat(a) == OrderedFloat(b), "{a:?} vs {b:?}");
        }
    }
}

#[test]
fn negative_prices_reverse_their_bit_order() {
    let a = (-2.0f64).to_bits();
    let b = (-1.0f64).to_bits();
    assert!(b < a);
    assert!(order_key(a) < order_key(b));
    assert!(order_key((-0.0f64).to_bits()) > order_key((-1e-300f64).to_bits()));
    assert!(order_key(f64::NAN.to_bits()) > order_key(f64::INFINITY.to_bits()));
}
