//! Big-endian byte strings and the numbers they stand for.

use vstd::prelude::*;
use crate::uint::{pow2_128, U256};

verus! {

/// 256 to the power `n`.
pub open spec fn pow256(n: nat) -> nat
    decreases n,
{
    if n == 0 {
        1
    } else {
        256 * pow256((n - 1) as nat)
    }
}

/// The number that a big-endian byte string stands for.
pub open spec fn be_value(s: Seq<u8>) -> nat
    decreases s.len(),
{
    if s.len() == 0 {
        0
    } else {
        be_value(s.drop_last()) * 256 + s.last() as nat
    }
}

/// The `n` lowest base-256 digits of `x`, most significant first.
pub open spec fn be_digits(x: nat, n: nat) -> Seq<u8>
    decreases n,
{
    if n == 0 {
        Seq::empty()
    } else {
        be_digits(x / 256, (n - 1) as nat).push((x % 256) as u8)
    }
}

/// The base-256 digits of `x`, most significant first, without leading zeros.
/// Zero has no digits.
pub open spec fn be_minimal(x: nat) -> Seq<u8>
    decreases x,
{
    if x == 0 {
        Seq::empty()
    } else {
        be_minimal(x / 256).push((x % 256) as u8)
    }
}

/// `be_digits` yields exactly `n` digits.
pub proof fn lemma_be_digits_len(x: nat, n: nat)
    ensures
        be_digits(x, n).len() == n,
    decreases n,
{
    if n > 0 {
        lemma_be_digits_len(x / 256, (n - 1) as nat);
    }
}

/// A number below `256^n` is the value of its `n` digits.
pub proof fn lemma_be_digits_value(x: nat, n: nat)
    requires
        x < pow256(n),
    ensures
        be_value(be_digits(x, n)) == x,
    decreases n,
{
    if n > 0 {
        let rest = be_digits(x / 256, (n - 1) as nat);
        lemma_be_digits_value(x / 256, (n - 1) as nat);
        assert(be_digits(x, n).drop_last() =~= rest);
    }
}

/// A byte string of length `n` stands for a number below `256^n`.
pub proof fn lemma_be_value_bound(s: Seq<u8>)
    ensures
        be_value(s) < pow256(s.len()),
    decreases s.len(),
{
    if s.len() > 0 {
        lemma_be_value_bound(s.drop_last());
    }
}

/// The digits of the value of a byte string are the byte string.
pub proof fn lemma_be_value_digits(s: Seq<u8>)
    ensures
        be_digits(be_value(s), s.len()) == s,
    decreases s.len(),
{
    if s.len() > 0 {
        lemma_be_value_digits(s.drop_last());
        assert(be_digits(be_value(s), s.len()) =~= s);
    } else {
        assert(be_digits(be_value(s), s.len()) =~= s);
    }
}

/// The powers of 256 that the fixed-width types use.
pub proof fn lemma_pow256_values()
    ensures
        pow256(1) == 0x100,
        pow256(2) == 0x1_0000,
        pow256(4) == 0x1_0000_0000,
        pow256(8) == 0x1_0000_0000_0000_0000,
        pow256(16) == pow2_128(),
{
    reveal_with_fuel(pow256, 17);
}

/// The minimal big-endian bytes of a number.
pub fn minimal_be_bytes(x: u128) -> (r: Vec<u8>)
    ensures
        r@ == be_minimal(x as nat),
    decreases x,
{
    if x == 0 {
        Vec::new()
    } else {
        let mut v = minimal_be_bytes(x / 256);
        v.push((x % 256) as u8);
        v
    }
}

/// The `n` lowest bytes of a number, most significant first.
pub fn fixed_be_bytes(x: u128, n: usize) -> (r: Vec<u8>)
    ensures
        r@ == be_digits(x as nat, n as nat),
    decreases n,
{
    if n == 0 {
        Vec::new()
    } else {
        let mut v = fixed_be_bytes(x / 256, n - 1);
        v.push((x % 256) as u8);
        v
    }
}

/// Reads up to 16 bytes of a slice as a big-endian number.
pub fn read_be(bytes: &[u8], start: usize, len: usize) -> (r: u128)
    requires
        len <= 16,
        start + len <= bytes@.len(),
    ensures
        r as nat == be_value(bytes@.subrange(start as int, start + len)),
{
    let mut acc: u128 = 0;
    let mut i: usize = 0;
    let total: usize = bytes.len();
    proof {
        lemma_pow256_values();
    }
    while i < len
        invariant
            i <= len <= 16,
            start + len <= bytes@.len(),
            total == bytes@.len(),
            acc as nat == be_value(bytes@.subrange(start as int, start + i)),
            acc < pow256(i as nat),
            pow256(16) == pow2_128(),
        decreases len - i,
    {
        let b: u8 = bytes[start + i];
        proof {
            let next = bytes@.subrange(start as int, start + i + 1);
            assert(next.drop_last() =~= bytes@.subrange(start as int, start + i));
            lemma_pow256_monotonic((i + 1) as nat, 16);
        }
        acc = acc * 256 + b as u128;
        i = i + 1;
    }
    acc
}

/// The powers of 256 grow with the exponent.
pub proof fn lemma_pow256_monotonic(a: nat, b: nat)
    requires
        a <= b,
    ensures
        pow256(a) <= pow256(b),
        pow256(a) >= 1,
    decreases b,
{
    if a < b {
        lemma_pow256_monotonic(a, (b - 1) as nat);
    } else if a > 0 {
        lemma_pow256_monotonic((a - 1) as nat, (a - 1) as nat);
    }
}

/// Joins two byte vectors into a new one.
pub fn concat_bytes(a: &Vec<u8>, b: &Vec<u8>) -> (r: Vec<u8>)
    ensures
        r@ == a@ + b@,
{
    let mut out: Vec<u8> = Vec::new();
    let mut i: usize = 0;
    while i < a.len()
        invariant
            i <= a@.len(),
            out@ == a@.subrange(0, i as int),
        decreases a@.len() - i,
    {
        out.push(a[i]);
        proof {
            assert(out@ =~= a@.subrange(0, i + 1));
        }
        i = i + 1;
    }
    let mut j: usize = 0;
    while j < b.len()
        invariant
            j <= b@.len(),
            out@ == a@ + b@.subrange(0, j as int),
        decreases b@.len() - j,
    {
        out.push(b[j]);
        proof {
            assert(out@ =~= a@ + b@.subrange(0, j + 1));
        }
        j = j + 1;
    }
    proof {
        assert(out@ =~= a@ + b@);
    }
    out
}

/// Copies a slice into a new vector.
pub fn copy_bytes(a: &[u8]) -> (r: Vec<u8>)
    ensures
        r@ == a@,
{
    let mut out: Vec<u8> = Vec::new();
    let mut i: usize = 0;
    while i < a.len()
        invariant
            i <= a@.len(),
            out@ == a@.subrange(0, i as int),
        decreases a@.len() - i,
    {
        out.push(a[i]);
        proof {
            assert(out@ =~= a@.subrange(0, i + 1));
        }
        i = i + 1;
    }
    proof {
        assert(out@ =~= a@);
    }
    out
}

/// The minimal digits of a number with a high part are the minimal digits of
/// the high part, then all the digits of the low part.
pub proof fn lemma_be_minimal_split(high: nat, low: nat, n: nat)
    requires
        high > 0,
        low < pow256(n),
    ensures
        be_minimal(high * pow256(n) + low) == be_minimal(high) + be_digits(low, n),
    decreases n,
{
    let x = high * pow256(n) + low;
    if n == 0 {
        assert(high * 1 == high) by (nonlinear_arith);
        assert(be_minimal(high) + be_digits(low, n) =~= be_minimal(high));
    } else {
        let rest = pow256((n - 1) as nat);
        assert(high * (256 * rest) == 256 * (high * rest)) by (nonlinear_arith);
        assert(0 <= high * rest) by (nonlinear_arith)
            requires
                high >= 0,
                rest >= 0,
        ;
        lemma_pow256_monotonic((n - 1) as nat, (n - 1) as nat);
        assert(high * rest >= 1) by (nonlinear_arith)
            requires
                high >= 1,
                rest >= 1,
        ;
        assert(x == 256 * (high * rest) + low);
        assert(x / 256 == high * rest + low / 256);
        assert(x % 256 == low % 256);
        lemma_be_minimal_split(high, low / 256, (n - 1) as nat);
        assert(be_minimal(x) == be_minimal(x / 256).push((x % 256) as u8));
        assert(be_minimal(x) =~= be_minimal(high) + be_digits(low, n));
    }
}

/// The big-endian bytes of a 256-bit number, without leading zeros.
pub fn minimal_u256_bytes(x: &U256) -> (r: Vec<u8>)
    ensures
        r@ == be_minimal(x@),
{
    if x.hi == 0 {
        minimal_be_bytes(x.lo)
    } else {
        let high = minimal_be_bytes(x.hi);
        let low = fixed_be_bytes(x.lo, 16);
        proof {
            lemma_pow256_values();
            lemma_be_minimal_split(x.hi as nat, x.lo as nat, 16);
        }
        concat_bytes(&high, &low)
    }
}

} // verus!
