use ethexec::blocks::{
    read_header, sha3_empty_list_rlp, sha3_null_rlp, BlockCollection, SyncBlock, UtilError,
};
use ethexec::hash::{keccak, ordered_trie_root, H256};
use rlp::RlpStream;

fn is_empty(bc: &BlockCollection) -> bool {
    bc.is_blank() && bc.head_count() == 0 && bc.is_empty()
}

#[test]
fn create_clear() {
    let mut bc = BlockCollection::new();
    assert!(is_empty(&bc));
    let hashes: Vec<H256> = (0..100u64).map(|i| keccak(&i.to_be_bytes())).collect();
    bc.reset_to(hashes);
    assert!(!is_empty(&bc));
    bc.clear();
    assert!(is_empty(&bc));
}

fn header(parent: &H256, transactions_root: &H256, uncles: &H256, number: u64) -> Vec<u8> {
    let mut stream = RlpStream::new_list(6);
    stream.append(&parent.to_bytes());
    stream.append(&uncles.to_bytes());
    stream.append(&vec![0u8; 20]);
    stream.append(&vec![0u8; 32]);
    stream.append(&transactions_root.to_bytes());
    stream.append(&number);
    stream.out().to_vec()
}

fn body(transactions: &[Vec<u8>]) -> Vec<u8> {
    let mut stream = RlpStream::new_list(2);
    stream.begin_list(transactions.len());
    for t in transactions {
        stream.append_raw(t, 1);
    }
    stream.begin_list(0);
    stream.out().to_vec()
}

#[test]
fn constants_are_the_hashes_of_the_empty_encodings() {
    assert_eq!(sha3_null_rlp(), keccak(&[0x80]));
    assert_eq!(sha3_empty_list_rlp(), keccak(&[0xc0]));
    assert_eq!(sha3_null_rlp(), ordered_trie_root(&vec![]));
}

#[test]
fn header_is_read_by_its_places() {
    let parent = keccak(b"parent");
    let root = keccak(b"root");
    let uncles = keccak(b"uncles");
    let bytes = header(&parent, &root, &uncles, 7);
    let info = match read_header(&bytes) {
        Ok(info) => info,
        Err(_) => panic!("the header can be read"),
    };
    assert_eq!(info.parent_hash, parent);
    assert_eq!(info.transactions_root, root);
    assert_eq!(info.uncles_hash, uncles);
    assert_eq!(info.hash, keccak(&bytes));
}

#[test]
fn header_that_cannot_be_read_is_turned_away() {
    let mut bc = BlockCollection::new();
    assert!(matches!(bc.insert_header(vec![0x83, 1, 2, 3]), Err(UtilError::Decoder(_))));
    // A list whose first item is not 32 bytes long.
    let mut stream = RlpStream::new_list(5);
    for _ in 0..5 {
        stream.append(&vec![1u8, 2, 3]);
    }
    assert!(matches!(bc.insert_header(stream.out().to_vec()), Err(UtilError::BadHashLength)));
    assert!(is_empty(&bc));
    bc.insert_headers(vec![vec![], vec![0xc0]]);
    assert!(is_empty(&bc));
}

#[test]
fn heads_move_to_the_end_of_their_chain() {
    let root = keccak(b"some transactions");
    let first = header(&keccak(b"genesis"), &root, &sha3_empty_list_rlp(), 1);
    let second = header(&keccak(&first), &root, &sha3_empty_list_rlp(), 2);
    let third = header(&keccak(&second), &root, &sha3_empty_list_rlp(), 3);
    let mut bc = BlockCollection::new();
    bc.reset_to(vec![keccak(&first)]);
    // Out of order: the links are made whichever header comes first.
    bc.insert_headers(vec![third.clone(), first.clone(), second.clone()]);
    assert!(bc.contains(&keccak(&first)));
    assert!(bc.contains(&keccak(&second)));
    assert!(bc.contains(&keccak(&third)));
    assert!(!bc.contains(&keccak(b"genesis")));
    assert!(!bc.is_empty());
    assert_eq!(
        bc.heap_size(),
        3 * (std::mem::size_of::<H256>() + std::mem::size_of::<SyncBlock>())
    );
    assert_eq!(bc.head_count(), 1);
    assert_eq!(bc.needed_headers(10, false), Some((keccak(&third), 10)));
    assert!(bc.is_downloading(&keccak(&third)));
    assert_eq!(bc.needed_headers(10, false), None);
    assert_eq!(bc.needed_headers(5, true), Some((keccak(&third), 5)));
    bc.clear_download(&keccak(&third));
    assert!(!bc.is_downloading(&keccak(&third)));
}

#[test]
fn a_chain_that_runs_into_another_head_is_dropped() {
    let root = keccak(b"some transactions");
    let first = header(&keccak(b"genesis"), &root, &sha3_empty_list_rlp(), 1);
    let second = header(&keccak(&first), &root, &sha3_empty_list_rlp(), 2);
    let third = header(&keccak(&second), &root, &sha3_empty_list_rlp(), 3);
    let mut bc = BlockCollection::new();
    bc.reset_to(vec![keccak(&first), keccak(&third)]);
    bc.insert_headers(vec![first.clone(), second.clone(), third.clone()]);
    assert_eq!(bc.head_count(), 1);
    assert_eq!(bc.needed_headers(1, false), Some((keccak(&third), 1)));
}

#[test]
fn bodies_go_to_the_headers_that_await_them() {
    let transaction = vec![0x83, b'a', b'b', b'c'];
    let root = ordered_trie_root(&vec![transaction.clone()]);
    let first = header(&keccak(b"genesis"), &root, &sha3_empty_list_rlp(), 1);
    let mut bc = BlockCollection::new();
    bc.insert_headers(vec![first.clone()]);
    assert!(bc.insert_body(body(&[transaction.clone()])).is_ok());
    // No header awaits this one; it is passed over.
    assert!(bc.insert_body(body(&[vec![0x80]])).is_ok());
    // This one cannot be read.
    assert!(bc.insert_body(vec![0x80]).is_err());
    bc.insert_bodies(vec![body(&[transaction]), vec![1, 2, 3]]);
    assert!(bc.contains(&keccak(&first)));
    // Nothing has been handed on yet, and nothing says where to begin.
    assert_eq!(bc.needed_bodies(10, false), Vec::<H256>::new());
    assert_eq!(bc.drain(), Vec::<Vec<u8>>::new());
    assert!(bc.contains(&keccak(&first)));
}
