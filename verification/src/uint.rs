//! Fixed-width unsigned integers of 256 and 512 bits.
//!
//! Balances, gas amounts and prices are 256-bit quantities; the product of two
//! of them needs 512 bits. Both types are viewed as natural numbers, and every
//! operation is specified over that view.

use vstd::prelude::*;

verus! {

/// Two to the power 64.
pub open spec fn pow2_64() -> int {
    0x1_0000_0000_0000_0000int
}

/// Two to the power 128: the weight of the upper limb of a `U256`.
pub open spec fn pow2_128() -> int {
    0x1_0000_0000_0000_0000_0000_0000_0000_0000int
}

/// Two to the power 256: the first value a `U256` cannot hold.
pub open spec fn pow2_256() -> int {
    0x1_0000_0000_0000_0000_0000_0000_0000_0000_0000_0000_0000_0000_0000_0000_0000_0000int
}

/// Two to the power 384.
pub open spec fn pow2_384() -> int {
    0x1_0000_0000_0000_0000_0000_0000_0000_0000_0000_0000_0000_0000_0000_0000_0000_0000_0000_0000_0000_0000_0000_0000_0000_0000int
}

/// Two to the power 512: the first value a `U512` cannot hold.
pub open spec fn pow2_512() -> int {
    0x1_0000_0000_0000_0000_0000_0000_0000_0000_0000_0000_0000_0000_0000_0000_0000_0000_0000_0000_0000_0000_0000_0000_0000_0000_0000_0000_0000_0000_0000_0000_0000_0000int
}

/// The product of two values below a bound stays below the bound's square.
pub proof fn lemma_product_bound(a: int, b: int, bound: int)
    by (nonlinear_arith)
    requires
        0 <= a < bound,
        0 <= b < bound,
    ensures
        0 <= a * b <= (bound - 1) * (bound - 1),
        a * b < bound * bound,
{
}

/// A product of two two-digit numbers, written out digit by digit.
pub proof fn lemma_product_by_digits(ah: int, al: int, bh: int, bl: int, base: int)
    ensures
        (ah * base + al) * (bh * base + bl) == (ah * bh) * (base * base) + (al * bh + ah * bl)
            * base + al * bl,
{
    let x = ah * base + al;
    assert(x * (bh * base + bl) == x * (bh * base) + x * bl) by (nonlinear_arith);
    assert(x * (bh * base) == (ah * base) * (bh * base) + al * (bh * base)) by (nonlinear_arith)
        requires
            x == ah * base + al,
    ;
    assert((ah * base) * (bh * base) == (ah * bh) * (base * base)) by (nonlinear_arith);
    assert(al * (bh * base) == (al * bh) * base) by (nonlinear_arith);
    assert(x * bl == (ah * base) * bl + al * bl) by (nonlinear_arith)
        requires
            x == ah * base + al,
    ;
    assert((ah * base) * bl == (ah * bl) * base) by (nonlinear_arith);
    assert((al * bh) * base + (ah * bl) * base == (al * bh + ah * bl) * base)
        by (nonlinear_arith);
}

/// A product grows with each of its factors.
pub proof fn lemma_product_monotonic(a: int, b: int, c: int)
    by (nonlinear_arith)
    requires
        0 <= a <= b,
        0 <= c,
    ensures
        a * c <= b * c,
{
}

/// The product of two 128-bit values stays below two to the power 256.
pub proof fn lemma_limb_product_bound(a: u128, b: u128)
    ensures
        0 <= (a as int) * (b as int) < pow2_256(),
{
    lemma_product_bound(a as int, b as int, pow2_128());
    assert(pow2_128() * pow2_128() == pow2_256());
}

/// Sum of two limbs with the carry out: `sum + carry * 2^128 == a + b`.
pub fn add_carry(a: u128, b: u128) -> (r: (u128, u128))
    ensures
        r.0 as int + (r.1 as int) * pow2_128() == a as int + b as int,
        r.1 <= 1,
{
    if a > u128::MAX - b {
        let rest: u128 = u128::MAX - b;
        (a - rest - 1, 1)
    } else {
        (a + b, 0)
    }
}

/// Difference of two limbs with the borrow out: `diff - borrow * 2^128 == a - b`.
pub fn sub_borrow(a: u128, b: u128) -> (r: (u128, u128))
    ensures
        r.0 as int - (r.1 as int) * pow2_128() == a as int - b as int,
        r.1 <= 1,
{
    if a < b {
        let gap: u128 = b - a;
        (u128::MAX - gap + 1, 1)
    } else {
        (a - b, 0)
    }
}

/// Full product of two limbs as an upper and a lower limb:
/// `upper * 2^128 + lower == a * b`.
pub fn mul_wide(a: u128, b: u128) -> (r: (u128, u128))
    ensures
        (r.0 as int) * pow2_128() + r.1 as int == (a as int) * (b as int),
{
    let base: u128 = 0x1_0000_0000_0000_0000;
    let a0: u128 = a % base;
    let a1: u128 = a / base;
    let b0: u128 = b % base;
    let b1: u128 = b / base;
    proof {
        let big = pow2_64();
        assert(big * big == pow2_128());
        lemma_product_bound(a0 as int, b0 as int, big);
        lemma_product_bound(a0 as int, b1 as int, big);
        lemma_product_bound(a1 as int, b0 as int, big);
        lemma_product_bound(a1 as int, b1 as int, big);
    }
    let p00: u128 = a0 * b0;
    let p01: u128 = a0 * b1;
    let p10: u128 = a1 * b0;
    let p11: u128 = a1 * b1;
    let mid: u128 = p00 / base + p01 % base + p10 % base;
    let lower: u128 = p00 % base + (mid % base) * base;
    proof {
        let big = pow2_64();
        lemma_product_by_digits(a1 as int, a0 as int, b1 as int, b0 as int, big);
        assert((a1 as int) * (b0 as int) == (b0 as int) * (a1 as int)) by (nonlinear_arith);
        lemma_limb_product_bound(a, b);
    }
    let upper: u128 = p11 + p01 / base + p10 / base + mid / base;
    (upper, lower)
}

/// An unsigned integer of 256 bits, held as two limbs of 128 bits.
#[derive(Clone, Copy, Debug, PartialEq, Eq, Structural)]
pub struct U256 {
    /// The upper 128 bits.
    pub hi: u128,
    /// The lower 128 bits.
    pub lo: u128,
}

impl View for U256 {
    type V = nat;

    open spec fn view(&self) -> nat {
        ((self.hi as int) * pow2_128() + (self.lo as int)) as nat
    }
}

impl U256 {
    /// Two values that stand for the same number are the same value.
    pub proof fn lemma_view_injective(self, other: U256)
        ensures
            (self@ == other@) <==> (self == other),
    {
    }

    /// The number zero.
    pub fn zero() -> (r: U256)
        ensures
            r@ == 0,
    {
        U256 { hi: 0, lo: 0 }
    }

    /// The number one.
    pub fn one() -> (r: U256)
        ensures
            r@ == 1,
    {
        U256 { hi: 0, lo: 1 }
    }

    /// The largest value, `2^256 - 1`.
    pub fn max_value() -> (r: U256)
        ensures
            r@ == pow2_256() - 1,
    {
        U256 { hi: u128::MAX, lo: u128::MAX }
    }

    /// Widens a 64-bit value.
    pub fn from_u64(x: u64) -> (r: U256)
        ensures
            r@ == x,
    {
        U256 { hi: 0, lo: x as u128 }
    }

    /// Widens a 128-bit value.
    pub fn from_u128(x: u128) -> (r: U256)
        ensures
            r@ == x,
    {
        U256 { hi: 0, lo: x }
    }

    /// Widens a machine-size value.
    pub fn from_usize(x: usize) -> (r: U256)
        ensures
            r@ == x,
    {
        U256 { hi: 0, lo: x as u128 }
    }

    /// Whether the value is zero.
    pub fn is_zero(&self) -> (r: bool)
        ensures
            r == (self@ == 0),
    {
        self.hi == 0 && self.lo == 0
    }

    /// Strictly less than.
    pub fn lt(&self, other: &U256) -> (r: bool)
        ensures
            r == (self@ < other@),
    {
        if self.hi != other.hi {
            self.hi < other.hi
        } else {
            self.lo < other.lo
        }
    }

    /// Less than or equal.
    pub fn le(&self, other: &U256) -> (r: bool)
        ensures
            r == (self@ <= other@),
    {
        !other.lt(self)
    }

    /// Strictly greater than.
    pub fn gt(&self, other: &U256) -> (r: bool)
        ensures
            r == (self@ > other@),
    {
        other.lt(self)
    }

    /// Greater than or equal.
    pub fn ge(&self, other: &U256) -> (r: bool)
        ensures
            r == (self@ >= other@),
    {
        !self.lt(other)
    }

    /// The smaller of two values.
    pub fn min(self, other: U256) -> (r: U256)
        ensures
            r@ == if self@ <= other@ { self@ } else { other@ },
    {
        if self.le(&other) {
            self
        } else {
            other
        }
    }

    /// Sum, or `None` where it does not fit in 256 bits.
    pub fn checked_add(self, other: U256) -> (r: Option<U256>)
        ensures
            match r {
                Some(s) => s@ == self@ + other@,
                None => self@ + other@ >= pow2_256(),
            },
    {
        let (lo, c0) = add_carry(self.lo, other.lo);
        let (mid, c1) = add_carry(self.hi, other.hi);
        let (hi, c2) = add_carry(mid, c0);
        if c1 != 0 || c2 != 0 {
            None
        } else {
            Some(U256 { hi, lo })
        }
    }

    /// Sum of two values whose sum fits in 256 bits.
    pub fn add(self, other: U256) -> (r: U256)
        requires
            self@ + other@ < pow2_256(),
        ensures
            r@ == self@ + other@,
    {
        match self.checked_add(other) {
            Some(s) => s,
            None => self,
        }
    }

    /// Sum, held at `2^256 - 1` where it would exceed it.
    pub fn saturating_add(self, other: U256) -> (r: U256)
        ensures
            r@ == if self@ + other@ < pow2_256() {
                self@ + other@
            } else {
                (pow2_256() - 1) as nat
            },
    {
        match self.checked_add(other) {
            Some(s) => s,
            None => U256::max_value(),
        }
    }

    /// Difference, or `None` where `other` is the larger.
    pub fn checked_sub(self, other: U256) -> (r: Option<U256>)
        ensures
            match r {
                Some(d) => d@ == self@ - other@,
                None => self@ < other@,
            },
    {
        if self.lt(&other) {
            None
        } else {
            let (lo, b0) = sub_borrow(self.lo, other.lo);
            let hi: u128 = self.hi - other.hi - b0;
            Some(U256 { hi, lo })
        }
    }

    /// Difference of two values of which the first is not the smaller.
    pub fn sub(self, other: U256) -> (r: U256)
        requires
            self@ >= other@,
        ensures
            r@ == self@ - other@,
    {
        match self.checked_sub(other) {
            Some(d) => d,
            None => self,
        }
    }

    /// Half of the value, rounded down.
    pub fn half(self) -> (r: U256)
        ensures
            r@ == self@ / 2,
    {
        let top: u128 = 0x8000_0000_0000_0000_0000_0000_0000_0000;
        let carry: u128 = if self.hi % 2 == 1 {
            top
        } else {
            0
        };
        U256 { hi: self.hi / 2, lo: self.lo / 2 + carry }
    }

    /// The full 512-bit product.
    pub fn full_mul(self, other: U256) -> (r: U512)
        ensures
            r@ == self@ * other@,
    {
        let (x1, x0) = mul_wide(self.lo, other.lo);
        let (y1, y0) = mul_wide(self.lo, other.hi);
        let (z1, z0) = mul_wide(self.hi, other.lo);
        let (w1, w0) = mul_wide(self.hi, other.hi);
        let (t1, c1) = add_carry(x1, y0);
        let (r1, c2) = add_carry(t1, z0);
        let (t2, c3) = add_carry(y1, z1);
        let (t3, c4) = add_carry(t2, w0);
        let (r2, c5) = add_carry(t3, c1 + c2);
        proof {
            let limb = pow2_128();
            let ah = self.hi as int;
            let al = self.lo as int;
            let bh = other.hi as int;
            let bl = other.lo as int;
            lemma_product_by_digits(ah, al, bh, bl, limb);
            assert(limb * limb == pow2_256());
            assert(limb * pow2_256() == pow2_384());
            assert(limb * pow2_384() == pow2_512());
            assert(pow2_256() * pow2_256() == pow2_512());
            lemma_product_bound(self@ as int, other@ as int, pow2_256());
        }
        let r3: u128 = w1 + (c3 + c4 + c5);
        U512 { hi: U256 { hi: r3, lo: r2 }, lo: U256 { hi: r1, lo: x0 } }
    }

    /// Product, or `None` where it does not fit in 256 bits.
    pub fn checked_mul(self, other: U256) -> (r: Option<U256>)
        ensures
            match r {
                Some(p) => p@ == self@ * other@,
                None => self@ * other@ >= pow2_256(),
            },
    {
        let wide = self.full_mul(other);
        if wide.hi.is_zero() {
            Some(wide.lo)
        } else {
            None
        }
    }

    /// Product of two values whose product fits in 256 bits.
    pub fn mul(self, other: U256) -> (r: U256)
        requires
            self@ * other@ < pow2_256(),
        ensures
            r@ == self@ * other@,
    {
        match self.checked_mul(other) {
            Some(p) => p,
            None => self,
        }
    }
}

/// An unsigned integer of 512 bits, held as two halves of 256 bits.
#[derive(Clone, Copy, Debug, PartialEq, Eq, Structural)]
pub struct U512 {
    /// The upper 256 bits.
    pub hi: U256,
    /// The lower 256 bits.
    pub lo: U256,
}

impl View for U512 {
    type V = nat;

    open spec fn view(&self) -> nat {
        (self.hi@ * pow2_256() + self.lo@) as nat
    }
}

impl U512 {
    /// The number zero.
    pub fn zero() -> (r: U512)
        ensures
            r@ == 0,
    {
        U512 { hi: U256::zero(), lo: U256::zero() }
    }

    /// Widens a 256-bit value.
    pub fn from_u256(x: U256) -> (r: U512)
        ensures
            r@ == x@,
    {
        U512 { hi: U256::zero(), lo: x }
    }

    /// Widens a 64-bit value.
    pub fn from_u64(x: u64) -> (r: U512)
        ensures
            r@ == x,
    {
        U512 { hi: U256::zero(), lo: U256::from_u64(x) }
    }

    /// Whether the value fits in 256 bits.
    pub fn fits_u256(&self) -> (r: bool)
        ensures
            r == (self@ < pow2_256()),
    {
        self.hi.is_zero()
    }

    /// The value as a 256-bit integer, where it fits.
    pub fn low_u256(self) -> (r: U256)
        requires
            self@ < pow2_256(),
        ensures
            r@ == self@,
    {
        self.lo
    }

    /// Strictly less than.
    pub fn lt(&self, other: &U512) -> (r: bool)
        ensures
            r == (self@ < other@),
    {
        if self.hi != other.hi {
            self.hi.lt(&other.hi)
        } else {
            self.lo.lt(&other.lo)
        }
    }

    /// Less than or equal.
    pub fn le(&self, other: &U512) -> (r: bool)
        ensures
            r == (self@ <= other@),
    {
        !other.lt(self)
    }

    /// Sum, or `None` where it does not fit in 512 bits.
    pub fn checked_add(self, other: U512) -> (r: Option<U512>)
        ensures
            match r {
                Some(s) => s@ == self@ + other@,
                None => self@ + other@ >= pow2_512(),
            },
    {
        let (l0, c0) = add_carry(self.lo.lo, other.lo.lo);
        let (t1, c1) = add_carry(self.lo.hi, other.lo.hi);
        let (l1, c2) = add_carry(t1, c0);
        let (t2, c3) = add_carry(self.hi.lo, other.hi.lo);
        let (l2, c4) = add_carry(t2, c1 + c2);
        let (t3, c5) = add_carry(self.hi.hi, other.hi.hi);
        let (l3, c6) = add_carry(t3, c3 + c4);
        proof {
            assert(pow2_128() * pow2_128() == pow2_256());
            assert(pow2_128() * pow2_256() == pow2_384());
            assert(pow2_128() * pow2_384() == pow2_512());
        }
        if c5 != 0 || c6 != 0 {
            None
        } else {
            Some(U512 { hi: U256 { hi: l3, lo: l2 }, lo: U256 { hi: l1, lo: l0 } })
        }
    }

    /// Sum of two values whose sum fits in 512 bits.
    pub fn add(self, other: U512) -> (r: U512)
        requires
            self@ + other@ < pow2_512(),
        ensures
            r@ == self@ + other@,
    {
        match self.checked_add(other) {
            Some(s) => s,
            None => self,
        }
    }
}

} // verus!
