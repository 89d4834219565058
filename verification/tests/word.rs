//! The 256-bit word.

use ouro_contracts::word::U256;

#[test]
fn word_sum_is_had_where_it_fits() {
    assert_eq!(U256::max().checked_add(U256::from(3u64)), None);
    assert_eq!(U256::from(1u64).checked_add(U256::max()), None);
    assert_eq!(U256::max().checked_add(U256::max()), None);
    assert_eq!(U256::max().checked_add(U256::zero()), Some(U256::max()));
    assert_eq!(U256::from(40u64).checked_add(U256::from(2u64)), Some(U256::from(42u64)));
    let carried = U256::from(u64::MAX).checked_add(U256::from(1u64)).unwrap();
    assert_eq!(carried.limbs, [0, 1, 0, 0]);
}

#[test]
fn word_order_is_numeric() {
    let high = U256 { limbs: [0, 0, 0, 1] };
    let low = U256 { limbs: [u64::MAX, u64::MAX, u64::MAX, 0] };
    assert!(low.less_than(high));
    assert!(!high.less_than(low));
    assert!(!low.less_than(low));
}

#[test]
fn word_conjunction_is_bitwise() {
    let a = U256 { limbs: [0b1100, 7, 0, u64::MAX] };
    let b = U256 { limbs: [0b1010, 0, 9, 5] };
    assert_eq!(a.bitand(b).limbs, [0b1000, 0, 0, 5]);
}
