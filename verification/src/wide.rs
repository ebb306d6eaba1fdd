//! 256-bit unsigned amounts and 18-digit fixed-point rates.
//!
//! The values are held as four 64-bit limbs, least significant first. Sums,
//! differences, products and ratios are computed by `cosmwasm_bignumber`;
//! the functions here test beforehand that the result fits, so that none of
//! them can fail.

use vstd::prelude::*;

verus! {

/// 2^64.
pub open spec fn limb_base() -> nat {
    0x1_0000_0000_0000_0000nat
}

/// 2^256, one more than the largest `Uint256`.
pub open spec fn uint256_limit() -> nat {
    0x1_0000_0000_0000_0000_0000_0000_0000_0000_0000_0000_0000_0000_0000_0000_0000_0000nat
}

/// 10^18, the number of atomic units in one whole of a fixed-point rate.
pub open spec fn decimal_one() -> nat {
    1_000_000_000_000_000_000nat
}

/// 10^36, the square of `decimal_one`: the number of atomic units in one
/// whole of a product of two fixed-point numbers.
pub open spec fn decimal_one_squared() -> nat {
    1_000_000_000_000_000_000_000_000_000_000_000_000nat
}

/// `decimal_one_squared` is the square of `decimal_one`.
pub proof fn lemma_decimal_one_squared()
    ensures
        decimal_one_squared() == decimal_one() * decimal_one(),
{
}

/// An unsigned integer below 2^256.
#[derive(Clone, Copy, Debug, PartialEq, Eq)]
pub struct Uint256 {
    /// The limbs in base 2^64, least significant first.
    pub limbs: [u64; 4],
}

impl View for Uint256 {
    type V = nat;

    open spec fn view(&self) -> nat {
        (self.limbs[0] as nat)
            + (self.limbs[1] as nat) * limb_base()
            + (self.limbs[2] as nat) * limb_base() * limb_base()
            + (self.limbs[3] as nat) * limb_base() * limb_base() * limb_base()
    }
}

impl Uint256 {
    /// The number zero.
    pub fn zero() -> (r: Uint256)
        ensures
            r@ == 0,
    {
        Uint256 { limbs: [0, 0, 0, 0] }
    }

    /// Widens a 128-bit number.
    pub fn from_u128(x: u128) -> (r: Uint256)
        ensures
            r@ == x,
    {
        let lo: u64 = (x % 0x1_0000_0000_0000_0000u128) as u64;
        let hi: u64 = (x / 0x1_0000_0000_0000_0000u128) as u64;
        Uint256 { limbs: [lo, hi, 0, 0] }
    }

    /// The number as 128 bits, where it fits.
    pub fn to_u128(&self) -> (r: Option<u128>)
        ensures
            r is Some <==> self@ <= u128::MAX,
            r matches Some(x) ==> x == self@,
    {
        if self.limbs[2] == 0 && self.limbs[3] == 0 {
            let hi: u128 = self.limbs[1] as u128;
            let lo: u128 = self.limbs[0] as u128;
            Some(hi * 0x1_0000_0000_0000_0000u128 + lo)
        } else {
            None
        }
    }
}

/// A fixed-point number with 18 fractional digits, held as its count of
/// atomic units: the number one is 10^18 units.
#[derive(Clone, Copy, Debug, PartialEq, Eq)]
pub struct Decimal256 {
    /// The number times 10^18.
    pub atomics: Uint256,
}

impl View for Decimal256 {
    type V = nat;

    open spec fn view(&self) -> nat {
        self.atomics@
    }
}

/// The sum that `+` of `cosmwasm_bignumber::Uint256` gives. The operator
/// panics where the sum does not fit 256 bits, so such operands are left out.
#[verifier::external_body]
fn sum(a: Uint256, b: Uint256) -> (r: Uint256)
    requires
        a@ + b@ < uint256_limit(),
    ensures
        r@ == a@ + b@,
{
    let mut x = cosmwasm_bignumber::Uint256::zero();
    (x.0).0 = a.limbs;
    let mut y = cosmwasm_bignumber::Uint256::zero();
    (y.0).0 = b.limbs;
    Uint256 { limbs: ((x + y).0).0 }
}

/// The difference that `-` of `cosmwasm_bignumber::Uint256` gives. The
/// operator panics where the right operand is the larger one.
#[verifier::external_body]
fn difference(a: Uint256, b: Uint256) -> (r: Uint256)
    requires
        a@ >= b@,
    ensures
        r@ == a@ - b@,
{
    let mut x = cosmwasm_bignumber::Uint256::zero();
    (x.0).0 = a.limbs;
    let mut y = cosmwasm_bignumber::Uint256::zero();
    (y.0).0 = b.limbs;
    Uint256 { limbs: ((x - y).0).0 }
}

/// What `<` of `cosmwasm_bignumber::Uint256` gives: the order of the numbers.
#[verifier::external_body]
fn less(a: Uint256, b: Uint256) -> (r: bool)
    ensures
        r == (a@ < b@),
{
    let mut x = cosmwasm_bignumber::Uint256::zero();
    (x.0).0 = a.limbs;
    let mut y = cosmwasm_bignumber::Uint256::zero();
    (y.0).0 = b.limbs;
    x < y
}

/// `cosmwasm_bignumber::Uint256::multiply_ratio`: the product of the first two
/// numbers divided by the third, rounded down. It panics on a zero divisor
/// and where the product does not fit 256 bits.
#[verifier::external_body]
fn ratio(a: Uint256, numerator: Uint256, denominator: Uint256) -> (r: Uint256)
    requires
        denominator@ > 0,
        a@ * numerator@ < uint256_limit(),
    ensures
        r@ == (a@ * numerator@) / denominator@,
{
    let mut x = cosmwasm_bignumber::Uint256::zero();
    (x.0).0 = a.limbs;
    let mut n = cosmwasm_bignumber::Uint256::zero();
    (n.0).0 = numerator.limbs;
    let mut d = cosmwasm_bignumber::Uint256::zero();
    (d.0).0 = denominator.limbs;
    Uint256 { limbs: ((x.multiply_ratio(n, d)).0).0 }
}

impl Uint256 {
    /// The largest number, 2^256 - 1.
    pub fn max_value() -> (r: Uint256)
        ensures
            r@ == uint256_limit() - 1,
    {
        Uint256 {
            limbs: [
                0xffff_ffff_ffff_ffff,
                0xffff_ffff_ffff_ffff,
                0xffff_ffff_ffff_ffff,
                0xffff_ffff_ffff_ffff,
            ],
        }
    }

    /// Whether the number is zero.
    pub fn is_zero(&self) -> (r: bool)
        ensures
            r == (self@ == 0),
    {
        self.limbs[0] == 0 && self.limbs[1] == 0 && self.limbs[2] == 0 && self.limbs[3] == 0
    }

    /// Whether this number is smaller than the other.
    pub fn lt(&self, other: &Uint256) -> (r: bool)
        ensures
            r == (self@ < other@),
    {
        less(*self, *other)
    }

    /// The sum, where it fits 256 bits.
    pub fn checked_add(&self, other: &Uint256) -> (r: Option<Uint256>)
        ensures
            r is Some <==> self@ + other@ < uint256_limit(),
            r matches Some(s) ==> s@ == self@ + other@,
    {
        let room: Uint256 = difference(Uint256::max_value(), *self);
        if less(room, *other) {
            None
        } else {
            Some(sum(*self, *other))
        }
    }

    /// The difference, where the other number is not the larger one.
    pub fn checked_sub(&self, other: &Uint256) -> (r: Option<Uint256>)
        ensures
            r is Some <==> self@ >= other@,
            r matches Some(d) ==> d@ == self@ - other@,
    {
        if less(*self, *other) {
            None
        } else {
            Some(difference(*self, *other))
        }
    }

    /// This number times `numerator`, divided by `denominator` and rounded
    /// down, where the divisor is not zero and the product fits 256 bits.
    pub fn checked_ratio(&self, numerator: &Uint256, denominator: &Uint256) -> (r: Option<
        Uint256,
    >)
        ensures
            r is Some <==> denominator@ > 0 && self@ * numerator@ < uint256_limit(),
            r matches Some(q) ==> q@ == (self@ * numerator@) / denominator@,
    {
        if denominator.is_zero() {
            return None;
        }
        if numerator.is_zero() {
            assert(self@ * numerator@ == 0) by (nonlinear_arith)
                requires
                    numerator@ == 0,
            ;
            return Some(ratio(*self, *numerator, *denominator));
        }
        let top: Uint256 = Uint256::max_value();
        let unit: Uint256 = Uint256::from_u128(1);
        assert(top@ * unit@ == top@) by (nonlinear_arith)
            requires
                unit@ == 1,
        ;
        let cap: Uint256 = ratio(top, unit, *numerator);
        proof {
            lemma_fits_by_quotient(self@, numerator@, top@);
        }
        if less(cap, *self) {
            None
        } else {
            Some(ratio(*self, *numerator, *denominator))
        }
    }

    /// The product, where it fits 256 bits.
    pub fn checked_mul(&self, other: &Uint256) -> (r: Option<Uint256>)
        ensures
            r is Some <==> self@ * other@ < uint256_limit(),
            r matches Some(p) ==> p@ == self@ * other@,
    {
        let unit: Uint256 = Uint256::from_u128(1);
        let product: Option<Uint256> = self.checked_ratio(other, &unit);
        assert((self@ * other@) / unit@ == self@ * other@) by (nonlinear_arith)
            requires
                unit@ == 1,
        ;
        product
    }
}

/// The product of two 128-bit numbers divided by a third, rounded down,
/// where the divisor is not zero and the quotient fits 128 bits.
pub fn checked_multiply_ratio(a: u128, numerator: u128, denominator: u128) -> (r: Option<u128>)
    ensures
        r is Some <==> denominator > 0 && (a * numerator) / (denominator as int) <= u128::MAX,
        r matches Some(q) ==> q == (a * numerator) / (denominator as int),
{
    if denominator == 0 {
        return None;
    }
    assert(a * numerator < uint256_limit()) by (nonlinear_arith)
        requires
            a <= u128::MAX,
            numerator <= u128::MAX,
            uint256_limit() == (u128::MAX + 1) * (u128::MAX + 1),
    ;
    ratio(
        Uint256::from_u128(a),
        Uint256::from_u128(numerator),
        Uint256::from_u128(denominator),
    ).to_u128()
}

impl Decimal256 {
    /// The rate with the given number of atomic units.
    pub fn from_atomics(atomics: u128) -> (r: Decimal256)
        ensures
            r@ == atomics,
    {
        Decimal256 { atomics: Uint256::from_u128(atomics) }
    }
}

/// A product of naturals stays within a bound exactly when one factor stays
/// within the bound's quotient by the other.
pub proof fn lemma_fits_by_quotient(a: nat, d: nat, top: nat)
    requires
        d > 0,
    ensures
        a <= top / d <==> a * d <= top,
{
    let q: nat = top / d;
    assert(q * d <= top && top < (q + 1) * d) by (nonlinear_arith)
        requires
            q == top / d,
            d > 0,
    ;
    if a <= q {
        assert(a * d <= q * d) by (nonlinear_arith)
            requires
                a <= q,
        ;
    } else {
        assert(a * d >= (q + 1) * d) by (nonlinear_arith)
            requires
                a >= q + 1,
        ;
    }
}

} // verus!
