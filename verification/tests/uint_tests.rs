use ethexec::bytes::{fixed_be_bytes, minimal_be_bytes, minimal_u256_bytes, read_be};
use ethexec::hash::{keccak, ordered_trie_root, Address, H256};
use ethexec::rlp_codec::{encode_pair, encode_raw_pair, encode_raw_triple};
use ethexec::uint::{add_carry, mul_wide, sub_borrow, U256, U512};

#[test]
fn limbs_carry_and_borrow() {
    assert_eq!(add_carry(u128::MAX, 1), (0, 1));
    assert_eq!(add_carry(5, 6), (11, 0));
    assert_eq!(sub_borrow(0, 1), (u128::MAX, 1));
    assert_eq!(sub_borrow(9, 4), (5, 0));
    assert_eq!(mul_wide(u128::MAX, u128::MAX), (u128::MAX - 1, 1));
    assert_eq!(mul_wide(1 << 100, 1 << 100), (1 << 72, 0));
    assert_eq!(mul_wide(12345, 6789), (0, 83810205));
}

#[test]
fn addition_and_subtraction() {
    let max = U256::max_value();
    assert_eq!(max.checked_add(U256::one()), None);
    assert_eq!(max.saturating_add(U256::from_u64(9)), max);
    assert_eq!(
        U256 { hi: 0, lo: u128::MAX }.checked_add(U256::one()),
        Some(U256 { hi: 1, lo: 0 })
    );
    assert_eq!(U256 { hi: 1, lo: 0 }.checked_sub(U256::one()), Some(U256 { hi: 0, lo: u128::MAX }));
    assert_eq!(U256::zero().checked_sub(U256::one()), None);
    assert_eq!(U256::from_u64(10).sub(U256::from_u64(3)), U256::from_u64(7));
    assert_eq!(U256::from_u64(10).add(U256::from_u64(3)), U256::from_u64(13));
}

#[test]
fn comparison_and_halves() {
    let small = U256 { hi: 0, lo: u128::MAX };
    let large = U256 { hi: 1, lo: 0 };
    assert!(small.lt(&large));
    assert!(small.le(&large));
    assert!(large.gt(&small));
    assert!(large.ge(&large));
    assert!(!large.lt(&large));
    assert_eq!(small.min(large), small);
    assert_eq!(large.min(small), small);
    assert_eq!(large.half(), U256 { hi: 0, lo: 1 << 127 });
    assert_eq!(U256 { hi: 3, lo: 7 }.half(), U256 { hi: 1, lo: (1 << 127) + 3 });
    assert!(U256::zero().is_zero());
    assert!(!large.is_zero());
    assert_eq!(U256::from_usize(5), U256::from_u128(5));
}

#[test]
fn products() {
    let max = U256::max_value();
    // (2^256 - 1)^2 = 2^512 - 2^257 + 1
    let square = max.full_mul(max);
    assert_eq!(square.lo, U256::one());
    assert_eq!(square.hi, U256 { hi: u128::MAX, lo: u128::MAX - 1 });
    assert_eq!(max.checked_mul(U256::from_u64(2)), None);
    assert_eq!(
        U256 { hi: 0, lo: 1 << 127 }.checked_mul(U256::from_u64(4)),
        Some(U256 { hi: 2, lo: 0 })
    );
    assert_eq!(U256::from_u64(100_000).mul(U256::from_u64(3)), U256::from_u64(300_000));
    assert_eq!(U256::from_u64(7).full_mul(U256::from_u64(6)), U512::from_u64(42));
}

#[test]
fn wide_sums() {
    let max = U512 { hi: U256::max_value(), lo: U256::max_value() };
    assert_eq!(max.checked_add(U512::from_u64(1)), None);
    let carried = U512::from_u256(U256::max_value()).add(U512::from_u64(1));
    assert_eq!(carried, U512 { hi: U256::one(), lo: U256::zero() });
    assert!(!carried.fits_u256());
    assert!(U512::from_u64(5).fits_u256());
    assert_eq!(U512::from_u64(5).low_u256(), U256::from_u64(5));
    assert!(U512::from_u64(5).lt(&carried));
    assert!(U512::from_u64(5).le(&U512::from_u64(5)));
    assert_eq!(U512::zero(), U512::from_u64(0));
}

#[test]
fn big_endian_bytes() {
    assert_eq!(minimal_be_bytes(0), Vec::<u8>::new());
    assert_eq!(minimal_be_bytes(0x0102), vec![1, 2]);
    assert_eq!(fixed_be_bytes(0x0102, 4), vec![0, 0, 1, 2]);
    assert_eq!(fixed_be_bytes(0x01020304, 2), vec![3, 4]);
    assert_eq!(read_be(&[9, 1, 2, 9], 1, 2), 0x0102);
    assert_eq!(minimal_u256_bytes(&U256::from_u64(88)), vec![88]);
    let mut expected = vec![1u8];
    expected.extend_from_slice(&[0u8; 16]);
    assert_eq!(minimal_u256_bytes(&U256 { hi: 1, lo: 0 }), expected);
}

#[test]
fn hashes_and_addresses_keep_their_bytes() {
    let bytes: Vec<u8> = (1..=32).collect();
    let hash = H256::from_bytes(&bytes, 0);
    assert_eq!(hash.to_bytes(), bytes);
    assert_eq!(hash.to_u256().hi, hash.hi);
    assert_eq!(H256::from_u256(hash.to_u256()), hash);
    let address = Address::from_bytes(&bytes, 3);
    assert_eq!(address.to_bytes(), bytes[3..23].to_vec());
    assert_eq!(Address::from_hash(&hash).to_bytes(), bytes[12..32].to_vec());
    assert_eq!(Address::zero().to_bytes(), vec![0u8; 20]);
    assert!(H256::zero().is_zero());
}

#[test]
fn keccak_of_nothing() {
    let expected: Vec<u8> = vec![
        0xc5, 0xd2, 0x46, 0x01, 0x86, 0xf7, 0x23, 0x3c, 0x92, 0x7e, 0x7d, 0xb2, 0xdc, 0xc7, 0x03,
        0xc0, 0xe5, 0x00, 0xb6, 0x53, 0xca, 0x82, 0x27, 0x3b, 0x7b, 0xfa, 0xd8, 0x04, 0x5d, 0x85,
        0xa4, 0x70,
    ];
    assert_eq!(keccak(&[]).to_bytes(), expected);
    assert_ne!(keccak(&[0]).to_bytes(), vec![0u8]);
}

#[test]
fn trie_root_of_two_items() {
    let expected: Vec<u8> = vec![
        0xe7, 0x66, 0xd5, 0xd5, 0x1b, 0x89, 0xdc, 0x39, 0xd9, 0x81, 0xb4, 0x1b, 0xda, 0x63, 0x24,
        0x8d, 0x7a, 0xbc, 0xe4, 0xf0, 0x22, 0x5e, 0xef, 0xd0, 0x23, 0x79, 0x2a, 0x54, 0x0b, 0xcf,
        0xfe, 0xe3,
    ];
    let items = vec![b"doe".to_vec(), b"reindeer".to_vec()];
    assert_eq!(ordered_trie_root(&items).to_bytes(), expected);
}

#[test]
fn lists_are_encoded_with_their_length() {
    assert_eq!(
        encode_pair(b"cat", b"dog"),
        vec![0xc8, 0x83, b'c', b'a', b't', 0x83, b'd', b'o', b'g']
    );
    // A single byte below 0x80 stands for itself, the empty string is 0x80.
    assert_eq!(encode_pair(&[0x7f], &[]), vec![0xc2, 0x7f, 0x80]);
    assert_eq!(encode_pair(&[0x80], &[]), vec![0xc3, 0x81, 0x80, 0x80]);
    assert_eq!(encode_raw_pair(&[0x80], &[0xc0]), vec![0xc2, 0x80, 0xc0]);
    assert_eq!(encode_raw_triple(&[0x01], &[0x02], &[0x03]), vec![0xc3, 1, 2, 3]);
    // Sixty bytes need a header of their own, and so does the list.
    let long = vec![7u8; 60];
    let encoded = encode_pair(&long, &[]);
    assert_eq!(&encoded[..4], &[0xf8, 63, 0xb8, 60]);
    assert_eq!(encoded.len(), 65);
    assert_eq!(encoded[64], 0x80);
    let longer = vec![7u8; 300];
    let encoded = encode_raw_pair(&longer, &[]);
    assert_eq!(&encoded[..3], &[0xf9, 0x01, 0x2c]);
    assert_eq!(encoded.len(), 303);
}
