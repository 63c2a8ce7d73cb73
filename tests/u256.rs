use solver_dto::u256::U256;

#[test]
fn add_carries_into_high_half() {
    let a = U256 { hi: 0, lo: u128::MAX };
    let b = U256::from_u128(1);
    assert_eq!(a.checked_add(&b), Some(U256 { hi: 1, lo: 0 }));
    let c = U256 { hi: 5, lo: u128::MAX - 1 };
    assert_eq!(c.checked_add(&U256 { hi: 2, lo: 3 }), Some(U256 { hi: 8, lo: 1 }));
}

#[test]
fn add_past_256_bits_is_none() {
    let max = U256 { hi: u128::MAX, lo: u128::MAX };
    assert_eq!(max.checked_add(&U256::from_u128(1)), None);
    assert_eq!(max.checked_add(&U256::zero()), Some(max));
    let half = U256 { hi: u128::MAX, lo: 0 };
    assert_eq!(half.checked_add(&U256 { hi: 1, lo: 0 }), None);
}

#[test]
fn order_goes_by_high_half_first() {
    let small_hi = U256 { hi: 1, lo: u128::MAX };
    let big_hi = U256 { hi: 2, lo: 0 };
    assert!(small_hi.le(&big_hi));
    assert!(!big_hi.le(&small_hi));
    assert!(big_hi.le(&big_hi));
    assert!(big_hi.same(&U256 { hi: 2, lo: 0 }));
    assert!(!big_hi.same(&small_hi));
}
