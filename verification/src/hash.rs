//! Account addresses of 20 bytes, hashes of 32 bytes, and Keccak-256.

use vstd::prelude::*;
use crate::bytes::{
    be_digits, be_value, concat_bytes, fixed_be_bytes, lemma_be_digits_len,
    lemma_be_digits_value, lemma_be_value_bound, lemma_be_value_digits, lemma_pow256_values,
    read_be,
};
use crate::uint::U256;

verus! {

/// The Keccak-256 digest of a byte string.
pub uninterp spec fn keccak256(data: Seq<u8>) -> Seq<u8>;

/// Calls `tiny_keccak::Keccak` (`v256`, `update`, `finalize`) on the bytes.
///
/// Not proved: that the vector returned is the Keccak-256 digest of `data`,
/// which is 32 bytes long.
#[verifier::external_body]
fn keccak_digest(data: &[u8]) -> (digest: Vec<u8>)
    ensures
        digest@ == keccak256(data@),
        digest@.len() == 32,
{
    let mut hasher = tiny_keccak::Keccak::v256();
    tiny_keccak::Hasher::update(&mut hasher, data);
    let mut out = [0u8; 32];
    tiny_keccak::Hasher::finalize(hasher, &mut out);
    out.to_vec()
}

/// A hash of 32 bytes, held as two big-endian halves.
#[derive(Clone, Copy, Debug, PartialEq, Eq, Structural, Hash)]
pub struct H256 {
    /// The first 16 bytes, as a big-endian number.
    pub hi: u128,
    /// The last 16 bytes, as a big-endian number.
    pub lo: u128,
}

impl H256 {
    /// The 32 bytes of the hash.
    pub open spec fn bytes(self) -> Seq<u8> {
        be_digits(self.hi as nat, 16) + be_digits(self.lo as nat, 16)
    }

    /// The hash that 32 bytes stand for.
    pub open spec fn from_seq(bytes: Seq<u8>) -> H256 {
        H256 {
            hi: be_value(bytes.subrange(0, 16)) as u128,
            lo: be_value(bytes.subrange(16, 32)) as u128,
        }
    }

    /// The hash is 32 bytes long.
    pub proof fn lemma_len(self)
        ensures
            self.bytes().len() == 32,
    {
        lemma_be_digits_len(self.hi as nat, 16);
        lemma_be_digits_len(self.lo as nat, 16);
    }

    /// The hash of 32 zero bytes.
    pub fn zero() -> (r: H256)
        ensures
            r == (H256 { hi: 0, lo: 0 }),
    {
        H256 { hi: 0, lo: 0 }
    }

    /// The 32 bytes of the hash.
    pub fn to_bytes(&self) -> (r: Vec<u8>)
        ensures
            r@ == self.bytes(),
    {
        let first = fixed_be_bytes(self.hi, 16);
        let second = fixed_be_bytes(self.lo, 16);
        concat_bytes(&first, &second)
    }

    /// Reads a hash from the 32 bytes of a slice that begin at `start`.
    pub fn from_bytes(bytes: &[u8], start: usize) -> (r: H256)
        requires
            start + 32 <= bytes@.len(),
        ensures
            r.bytes() == bytes@.subrange(start as int, start + 32),
            r == H256::from_seq(bytes@.subrange(start as int, start + 32)),
    {
        let total: usize = bytes.len();
        assert(start + 32 <= total);
        let hi = read_be(bytes, start, 16);
        let lo = read_be(bytes, start + 16, 16);
        proof {
            let first = bytes@.subrange(start as int, start + 16);
            let second = bytes@.subrange(start + 16, start + 32);
            let whole = bytes@.subrange(start as int, start + 32);
            lemma_be_value_digits(first);
            lemma_be_value_digits(second);
            assert(first + second =~= whole);
            assert(whole.subrange(0, 16) =~= first);
            assert(whole.subrange(16, 32) =~= second);
        }
        H256 { hi, lo }
    }

    /// The hash whose bytes are the 32 big-endian bytes of a number.
    pub fn from_u256(x: U256) -> (r: H256)
        ensures
            r.hi == x.hi,
            r.lo == x.lo,
    {
        H256 { hi: x.hi, lo: x.lo }
    }

    /// The number whose 32 big-endian bytes are the hash.
    pub fn to_u256(&self) -> (r: U256)
        ensures
            r.hi == self.hi,
            r.lo == self.lo,
    {
        U256 { hi: self.hi, lo: self.lo }
    }

    /// Whether all 32 bytes are zero.
    pub fn is_zero(&self) -> (r: bool)
        ensures
            r == (*self == H256 { hi: 0, lo: 0 }),
    {
        self.hi == 0 && self.lo == 0
    }
}

/// The Keccak-256 hash of a byte string.
pub fn keccak(data: &[u8]) -> (r: H256)
    ensures
        r.bytes() == keccak256(data@),
        r == H256::from_seq(keccak256(data@)),
{
    let digest = keccak_digest(data);
    proof {
        assert(digest@.subrange(0, 32) =~= digest@);
    }
    H256::from_bytes(digest.as_slice(), 0)
}

/// The address of an account: 20 bytes, held as a big-endian number in two parts.
#[derive(Clone, Copy, Debug, PartialEq, Eq, Structural, Hash)]
pub struct Address {
    /// The first 4 bytes, as a big-endian number.
    pub hi: u32,
    /// The last 16 bytes, as a big-endian number.
    pub lo: u128,
}

impl Address {
    /// The 20 bytes of the address.
    pub open spec fn bytes(self) -> Seq<u8> {
        be_digits(self.hi as nat, 4) + be_digits(self.lo as nat, 16)
    }

    /// Two addresses are equal exactly when their bytes are.
    pub proof fn lemma_bytes_injective(self, other: Address)
        ensures
            (self.bytes() == other.bytes()) <==> (self == other),
    {
        lemma_pow256_values();
        lemma_be_digits_len(self.hi as nat, 4);
        lemma_be_digits_len(self.lo as nat, 16);
        lemma_be_digits_len(other.hi as nat, 4);
        lemma_be_digits_len(other.lo as nat, 16);
        lemma_be_digits_value(self.hi as nat, 4);
        lemma_be_digits_value(self.lo as nat, 16);
        lemma_be_digits_value(other.hi as nat, 4);
        lemma_be_digits_value(other.lo as nat, 16);
        if self.bytes() == other.bytes() {
            assert(self.bytes().subrange(0, 4) =~= be_digits(self.hi as nat, 4));
            assert(other.bytes().subrange(0, 4) =~= be_digits(other.hi as nat, 4));
            assert(self.bytes().subrange(4, 20) =~= be_digits(self.lo as nat, 16));
            assert(other.bytes().subrange(4, 20) =~= be_digits(other.lo as nat, 16));
        }
    }

    /// The address of 20 zero bytes.
    pub fn zero() -> (r: Address)
        ensures
            r == (Address { hi: 0, lo: 0 }),
    {
        Address { hi: 0, lo: 0 }
    }

    /// The 20 bytes of the address.
    pub fn to_bytes(&self) -> (r: Vec<u8>)
        ensures
            r@ == self.bytes(),
    {
        let first = fixed_be_bytes(self.hi as u128, 4);
        let second = fixed_be_bytes(self.lo, 16);
        concat_bytes(&first, &second)
    }

    /// Reads an address from the 20 bytes of a slice that begin at `start`.
    pub fn from_bytes(bytes: &[u8], start: usize) -> (r: Address)
        requires
            start + 20 <= bytes@.len(),
        ensures
            r.bytes() == bytes@.subrange(start as int, start + 20),
    {
        let total: usize = bytes.len();
        assert(start + 20 <= total);
        let hi = read_be(bytes, start, 4);
        let lo = read_be(bytes, start + 4, 16);
        proof {
            let first = bytes@.subrange(start as int, start + 4);
            let second = bytes@.subrange(start + 4, start + 20);
            lemma_be_value_digits(first);
            lemma_be_value_digits(second);
            lemma_be_value_bound(first);
            lemma_pow256_values();
            assert(first + second =~= bytes@.subrange(start as int, start + 20));
        }
        Address { hi: hi as u32, lo }
    }

    /// The address made of the last 20 bytes of a hash.
    pub fn from_hash(hash: &H256) -> (r: Address)
        ensures
            r.bytes() == hash.bytes().subrange(12, 32),
    {
        let all = hash.to_bytes();
        proof {
            hash.lemma_len();
        }
        Address::from_bytes(all.as_slice(), 12)
    }
}

/// The root hash of the trie that holds the items under the encoding of
/// their places 0, 1, 2 and so on.
pub uninterp spec fn ordered_trie_root_of(items: Seq<Seq<u8>>) -> Seq<u8>;

/// Calls `triehash::ordered_trie_root` with the Keccak-256 hasher of
/// `keccak_hasher`.
///
/// Not proved: that the vector returned is the root hash of the items, which
/// is 32 bytes long.
#[verifier::external_body]
fn trie_root_digest(items: &Vec<Vec<u8>>) -> (digest: Vec<u8>)
    ensures
        digest@ == ordered_trie_root_of(items.deep_view()),
        digest@.len() == 32,
{
    triehash::ordered_trie_root::<keccak_hasher::KeccakHasher, _>(items).to_vec()
}

/// The root hash of the trie that holds the items in their order.
pub fn ordered_trie_root(items: &Vec<Vec<u8>>) -> (r: H256)
    ensures
        r.bytes() == ordered_trie_root_of(items.deep_view()),
        r == H256::from_seq(ordered_trie_root_of(items.deep_view())),
{
    let digest = trie_root_digest(items);
    proof {
        assert(digest@.subrange(0, 32) =~= digest@);
    }
    H256::from_bytes(digest.as_slice(), 0)
}

} // verus!
