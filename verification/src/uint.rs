//! 256-bit unsigned amounts (wei, token ids, gas) as four 64-bit limbs,
//! with the arithmetic of the `uint` crate behind it.

use vstd::prelude::*;

verus! {

/// 2^64.
pub open spec fn limb_base() -> int {
    0x1_0000_0000_0000_0000int
}

/// 2^128.
pub open spec fn base2() -> int {
    0x1_0000_0000_0000_0000_0000_0000_0000_0000int
}

/// 2^192.
pub open spec fn base3() -> int {
    0x1_0000_0000_0000_0000_0000_0000_0000_0000_0000_0000_0000_0000int
}

/// 2^256, the first value that no `U256` can hold.
pub open spec fn u256_bound() -> int {
    0x1_0000_0000_0000_0000_0000_0000_0000_0000_0000_0000_0000_0000_0000_0000_0000_0000int
}

/// An unsigned 256-bit integer, least significant limb first.
#[derive(Clone, Copy, Debug, PartialEq, Eq, Structural)]
pub struct U256 {
    pub l0: u64,
    pub l1: u64,
    pub l2: u64,
    pub l3: u64,
}

impl U256 {
    /// The number this value stands for.
    pub open spec fn value(self) -> nat {
        (self.l0 + self.l1 * limb_base() + self.l2 * base2() + self.l3 * base3()) as nat
    }
}

/// `a < b` on the `uint` crate's `U256` (its `PartialOrd`, which orders by
/// numeric value); the contract claims exactly that.
#[verifier::external_body]
fn uint_lt(a: U256, b: U256) -> (r: bool)
    ensures
        r == (a.value() < b.value()),
{
    ethers_core::types::U256([a.l0, a.l1, a.l2, a.l3]) < ethers_core::types::U256(
        [b.l0, b.l1, b.l2, b.l3],
    )
}

/// `U256::checked_add` of the `uint` crate: the sum, or `None` when it does not
/// fit in 256 bits.
#[verifier::external_body]
fn uint_checked_add(a: U256, b: U256) -> (r: Option<U256>)
    ensures
        r is Some <==> a.value() + b.value() < u256_bound(),
        r matches Some(c) ==> c.value() == a.value() + b.value(),
{
    let x = ethers_core::types::U256([a.l0, a.l1, a.l2, a.l3]);
    let y = ethers_core::types::U256([b.l0, b.l1, b.l2, b.l3]);
    match x.checked_add(y) {
        Some(z) => Some(U256 { l0: z.0[0], l1: z.0[1], l2: z.0[2], l3: z.0[3] }),
        None => None,
    }
}

/// `U256::checked_sub` of the `uint` crate: the difference, or `None` when the
/// second operand is larger.
#[verifier::external_body]
fn uint_checked_sub(a: U256, b: U256) -> (r: Option<U256>)
    ensures
        r is Some <==> b.value() <= a.value(),
        r matches Some(c) ==> c.value() == a.value() - b.value(),
{
    let x = ethers_core::types::U256([a.l0, a.l1, a.l2, a.l3]);
    let y = ethers_core::types::U256([b.l0, b.l1, b.l2, b.l3]);
    match x.checked_sub(y) {
        Some(z) => Some(U256 { l0: z.0[0], l1: z.0[1], l2: z.0[2], l3: z.0[3] }),
        None => None,
    }
}

/// `U256::checked_mul` of the `uint` crate: the product, or `None` when it does
/// not fit in 256 bits.
#[verifier::external_body]
fn uint_checked_mul(a: U256, b: U256) -> (r: Option<U256>)
    ensures
        r is Some <==> a.value() * b.value() < u256_bound(),
        r matches Some(c) ==> c.value() == a.value() * b.value(),
{
    let x = ethers_core::types::U256([a.l0, a.l1, a.l2, a.l3]);
    let y = ethers_core::types::U256([b.l0, b.l1, b.l2, b.l3]);
    match x.checked_mul(y) {
        Some(z) => Some(U256 { l0: z.0[0], l1: z.0[1], l2: z.0[2], l3: z.0[3] }),
        None => None,
    }
}

/// `U256::checked_div` of the `uint` crate: the quotient rounded down, or
/// `None` when the divisor is zero.
#[verifier::external_body]
fn uint_checked_div(a: U256, b: U256) -> (r: Option<U256>)
    ensures
        r is Some <==> b.value() != 0,
        r matches Some(c) ==> c.value() == a.value() / b.value(),
{
    let x = ethers_core::types::U256([a.l0, a.l1, a.l2, a.l3]);
    let y = ethers_core::types::U256([b.l0, b.l1, b.l2, b.l3]);
    match x.checked_div(y) {
        Some(z) => Some(U256 { l0: z.0[0], l1: z.0[1], l2: z.0[2], l3: z.0[3] }),
        None => None,
    }
}

impl U256 {
    /// Zero.
    pub fn zero() -> (r: U256)
        ensures
            r.value() == 0,
    {
        U256 { l0: 0, l1: 0, l2: 0, l3: 0 }
    }

    /// The largest value, 2^256 - 1.
    pub fn max_value() -> (r: U256)
        ensures
            r.value() == u256_bound() - 1,
    {
        let r = U256 { l0: u64::MAX, l1: u64::MAX, l2: u64::MAX, l3: u64::MAX };
        r
    }

    /// The value of a `u64`.
    pub fn from_u64(x: u64) -> (r: U256)
        ensures
            r.value() == x,
    {
        U256 { l0: x, l1: 0, l2: 0, l3: 0 }
    }

    /// The value of a `usize`.
    pub fn from_usize(x: usize) -> (r: U256)
        ensures
            r.value() == x,
    {
        U256 { l0: x as u64, l1: 0, l2: 0, l3: 0 }
    }

    /// The value of a `u128`.
    pub fn from_u128(x: u128) -> (r: U256)
        ensures
            r.value() == x,
    {
        let lo = (x % 0x1_0000_0000_0000_0000u128) as u64;
        let hi = (x / 0x1_0000_0000_0000_0000u128) as u64;
        U256 { l0: lo, l1: hi, l2: 0, l3: 0 }
    }

    /// `self < other`.
    pub fn lt(&self, other: &U256) -> (r: bool)
        ensures
            r == (self.value() < other.value()),
    {
        uint_lt(*self, *other)
    }

    /// `self > other`.
    pub fn gt(&self, other: &U256) -> (r: bool)
        ensures
            r == (self.value() > other.value()),
    {
        uint_lt(*other, *self)
    }

    /// `self == other` by value.
    pub fn eq_value(&self, other: &U256) -> (r: bool)
        ensures
            r == (self.value() == other.value()),
    {
        !uint_lt(*self, *other) && !uint_lt(*other, *self)
    }

    /// The sum, or `None` on overflow.
    pub fn checked_add(&self, other: &U256) -> (r: Option<U256>)
        ensures
            r is Some <==> self.value() + other.value() < u256_bound(),
            r matches Some(c) ==> c.value() == self.value() + other.value(),
    {
        uint_checked_add(*self, *other)
    }

    /// The difference, or `None` when `other` is larger.
    pub fn checked_sub(&self, other: &U256) -> (r: Option<U256>)
        ensures
            r is Some <==> other.value() <= self.value(),
            r matches Some(c) ==> c.value() == self.value() - other.value(),
    {
        uint_checked_sub(*self, *other)
    }

    /// The product, or `None` on overflow.
    pub fn checked_mul(&self, other: &U256) -> (r: Option<U256>)
        ensures
            r is Some <==> self.value() * other.value() < u256_bound(),
            r matches Some(c) ==> c.value() == self.value() * other.value(),
    {
        uint_checked_mul(*self, *other)
    }

    /// The quotient rounded down, or `None` when `other` is zero.
    pub fn checked_div(&self, other: &U256) -> (r: Option<U256>)
        ensures
            r is Some <==> other.value() != 0,
            r matches Some(c) ==> c.value() == self.value() / other.value(),
    {
        uint_checked_div(*self, *other)
    }

    /// `self + other`, for operands whose sum fits.
    pub fn add(&self, other: &U256) -> (r: U256)
        requires
            self.value() + other.value() < u256_bound(),
        ensures
            r.value() == self.value() + other.value(),
    {
        match uint_checked_add(*self, *other) {
            Some(c) => c,
            None => U256::zero(),
        }
    }

    /// `self - other`, for `other <= self`.
    pub fn sub(&self, other: &U256) -> (r: U256)
        requires
            other.value() <= self.value(),
        ensures
            r.value() == self.value() - other.value(),
    {
        match uint_checked_sub(*self, *other) {
            Some(c) => c,
            None => U256::zero(),
        }
    }

    /// `self * other`, for operands whose product fits.
    pub fn mul(&self, other: &U256) -> (r: U256)
        requires
            self.value() * other.value() < u256_bound(),
        ensures
            r.value() == self.value() * other.value(),
    {
        match uint_checked_mul(*self, *other) {
            Some(c) => c,
            None => U256::zero(),
        }
    }

    /// `self / other` rounded down, for a non-zero divisor.
    pub fn div(&self, other: &U256) -> (r: U256)
        requires
            other.value() != 0,
        ensures
            r.value() == self.value() / other.value(),
    {
        match uint_checked_div(*self, *other) {
            Some(c) => c,
            None => U256::zero(),
        }
    }

    /// The value as a `u128`, for values below 2^128 (`as_u128`).
    pub fn as_u128(&self) -> (r: u128)
        requires
            self.value() < base2(),
        ensures
            r == self.value(),
    {
        proof { lemma_value_bounds(*self); }
        (self.l0 as u128) + (self.l1 as u128) * 0x1_0000_0000_0000_0000u128
    }

    /// The value as a `u64`, for values below 2^64 (`as_u64`).
    pub fn as_u64(&self) -> (r: u64)
        requires
            self.value() < limb_base(),
        ensures
            r == self.value(),
    {
        proof { lemma_value_bounds(*self); }
        self.l0
    }
}

/// A value is below 2^256; the limbs above a bound of the value vanish.
pub proof fn lemma_value_bounds(x: U256)
    ensures
        x.value() < u256_bound(),
        x.value() < limb_base() ==> x.l1 == 0 && x.l2 == 0 && x.l3 == 0,
        x.value() < base2() ==> x.l2 == 0 && x.l3 == 0,
{
}

} // verus!
