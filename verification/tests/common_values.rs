use nft_arb::address::{contains_address, Address};
use nft_arb::uint::U256;

fn addr(b: u8) -> Address {
    let mut bytes = [0u8; 20];
    bytes[19] = b;
    Address { bytes }
}

fn u(x: u64) -> U256 {
    U256::from_u64(x)
}

#[test]
fn u256_arithmetic_matches_integers() {
    assert_eq!(u(7).add(&u(5)), u(12));
    assert_eq!(u(7).sub(&u(5)), u(2));
    assert_eq!(u(7).mul(&u(5)), u(35));
    assert_eq!(u(36).div(&u(5)), u(7));
    assert!(u(3).lt(&u(4)));
    assert!(!u(4).lt(&u(4)));
    assert!(u(5).gt(&u(4)));
    assert!(u(4).eq_value(&u(4)));
}

#[test]
fn u256_carries_across_limbs() {
    let big = U256::from_u64(u64::MAX);
    let r = big.add(&u(1));
    assert_eq!(r, U256 { l0: 0, l1: 1, l2: 0, l3: 0 });
    let sq = big.mul(&big);
    assert_eq!(sq, U256 { l0: 1, l1: u64::MAX - 1, l2: 0, l3: 0 });
    assert_eq!(U256::from_u128(1u128 << 64), U256 { l0: 0, l1: 1, l2: 0, l3: 0 });
    assert_eq!(U256 { l0: 5, l1: 1, l2: 0, l3: 0 }.as_u128(), (1u128 << 64) + 5);
}

#[test]
fn u256_checked_operations_report_overflow() {
    let max = U256::max_value();
    assert_eq!(max.checked_add(&u(1)), None);
    assert_eq!(u(1).checked_sub(&u(2)), None);
    assert_eq!(max.checked_mul(&u(2)), None);
    assert_eq!(u(1).checked_div(&u(0)), None);
    assert_eq!(max.checked_sub(&max), Some(u(0)));
}

#[test]
fn addresses_compare_by_bytes() {
    assert!(addr(1).same(&addr(1)));
    assert!(!addr(1).same(&addr(2)));
    assert!(Address::zero().same(&Address { bytes: [0u8; 20] }));
    let list = vec![addr(1), addr(3)];
    assert!(contains_address(&list, &addr(3)));
    assert!(!contains_address(&list, &addr(2)));
}
