use chain_mock::BigNat;

#[test]
fn from_u64_round_trip_small() {
    let a = BigNat::from_u64(1125);
    let b = BigNat::from_u64(1125);
    assert!(a.eq_value(&b));
    assert_eq!(a.digits().as_slice(), &[1125u32]);
}

#[test]
fn add_carries_across_digit_boundary() {
    let a = BigNat::from_u64(0xFFFF_FFFF);
    let b = BigNat::from_u64(1);
    let sum = a.add(&b);
    assert!(sum.eq_value(&BigNat::from_u64(0x1_0000_0000)));
    assert_eq!(sum.digits().as_slice(), &[0u32, 1u32]);
}

#[test]
fn add_beyond_machine_width() {
    let max = BigNat::from_u64(u64::MAX);
    let doubled = max.add(&max);
    // 2 * (2^64 - 1) = 2^65 - 2, which no u64 can hold.
    let expected = BigNat::from_u64_product(2, u64::MAX);
    assert!(doubled.eq_value(&expected));
    assert!(max.lt(&doubled));
}

#[test]
fn sub_exact_value() {
    let a = BigNat::from_u64(100);
    let b = BigNat::from_u64(30);
    let d = a.sub(&b);
    assert!(d.eq_value(&BigNat::from_u64(70)));
}

#[test]
fn lt_is_strict_numeric_order() {
    let small = BigNat::from_u64(10);
    let large = BigNat::from_u64(50);
    assert!(small.lt(&large));
    assert!(!large.lt(&small));
    assert!(!small.lt(&BigNat::from_u64(10)));
}

#[test]
fn product_exact_value() {
    let p = BigNat::from_u64_product(7, 6);
    assert!(p.eq_value(&BigNat::from_u64(42)));
    let zero_product = BigNat::from_u64_product(0, u64::MAX);
    assert!(zero_product.is_zero());
}

#[test]
fn zero_and_is_zero() {
    assert!(BigNat::zero().is_zero());
    assert!(!BigNat::from_u64(1).is_zero());
    assert!(BigNat::zero().eq_value(&BigNat::from_u64(0)));
}

#[test]
fn clone_keeps_value() {
    let a = BigNat::from_u64(123456789);
    let b = a.clone();
    assert!(a.eq_value(&b));
}
