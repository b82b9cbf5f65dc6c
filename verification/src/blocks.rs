//! The blocks that a download has brought so far: headers first, bodies
//! after them, linked into chains and handed on in order.

use vstd::prelude::*;
use vstd::layout::size_of;
use crate::bytes::copy_bytes;
use crate::hash::{keccak, keccak256, ordered_trie_root, ordered_trie_root_of, H256};
use crate::rlp_codec::{
    encode_raw_pair, encode_raw_triple, item_at, items, payload, rlp_item_at, rlp_items,
    rlp_list, rlp_payload,
};
use crate::table::{Key, Table};

verus! {

/// Why a header or a body is not taken.
pub enum UtilError {
    /// The bytes cannot be read as what they should be.
    Decoder(rlp::DecoderError),
    /// A hash is not 32 bytes long.
    BadHashLength,
}

/// A block as far as it has been brought.
pub struct SyncBlock {
    /// The encoded header.
    pub header: Vec<u8>,
    /// The encoded body, once it is there.
    pub body: Option<Vec<u8>>,
    /// The hash of the block that follows, once its header is there.
    pub next: Option<H256>,
}

/// The bytes that one block takes in the collection, without what its header
/// and body hold: the size of its hash and that of its entry.
pub open spec fn entry_size() -> nat {
    size_of::<H256>() + size_of::<SyncBlock>()
}

/// A block as far as it has been brought, as plain values.
pub struct BlockView {
    /// The encoded header.
    pub header: Seq<u8>,
    /// The encoded body, once it is there.
    pub body: Option<Seq<u8>>,
    /// The hash of the block that follows, once its header is there.
    pub next: Option<H256>,
}

impl View for SyncBlock {
    type V = BlockView;

    open spec fn view(&self) -> BlockView {
        BlockView {
            header: self.header@,
            body: match self.body {
                Some(b) => Some(b@),
                None => None,
            },
            next: self.next,
        }
    }
}

/// What tells which header a body belongs to.
#[derive(Clone, Copy, Debug, PartialEq, Eq, Structural)]
pub struct HeaderId {
    /// The root hash of the block's transactions.
    pub transactions_root: H256,
    /// The hash of the block's list of uncles.
    pub uncles: H256,
}

impl Key for HeaderId {
    fn same(&self, other: &Self) -> (r: bool) {
        self.transactions_root == other.transactions_root && self.uncles == other.uncles
    }
}

/// The root hash of no transactions: the hash of the encoded empty string.
pub open spec fn null_root() -> H256 {
    H256 { hi: 0x56e81f171bcc55a6ff8345e692c0f86e, lo: 0x5b48e01b996cadc001622fb5e363b421 }
}

/// The hash of no uncles: the hash of the encoded empty list.
pub open spec fn empty_list_hash() -> H256 {
    H256 { hi: 0x1dcc4de8dec75d7aab85b567b6ccd41a, lo: 0xd312451b948a7413f0a142fd40d49347 }
}

/// The root hash of no transactions.
pub fn sha3_null_rlp() -> (r: H256)
    ensures
        r == null_root(),
{
    H256 { hi: 0x56e81f171bcc55a6ff8345e692c0f86e, lo: 0x5b48e01b996cadc001622fb5e363b421 }
}

/// The hash of no uncles.
pub fn sha3_empty_list_rlp() -> (r: H256)
    ensures
        r == empty_list_hash(),
{
    H256 { hi: 0x1dcc4de8dec75d7aab85b567b6ccd41a, lo: 0xd312451b948a7413f0a142fd40d49347 }
}

/// The body of a block without transactions and without uncles.
pub open spec fn empty_body() -> Seq<u8> {
    rlp_list(seq![0x80u8] + seq![0xc0u8])
}

/// Whether the list of transactions and the list of uncles can be read from
/// a body.
pub open spec fn body_readable(body: Seq<u8>) -> bool {
    rlp_item_at(body, 0).is_some() && rlp_item_at(body, 1).is_some()
}

/// The hash that a header holds at a place: the 32 bytes of the item there.
pub open spec fn hash_field(header: Seq<u8>, index: nat) -> Option<H256> {
    match rlp_item_at(header, index) {
        Some(item) => match rlp_payload(item) {
            Some(data) => if data.len() == 32 {
                Some(H256::from_seq(data))
            } else {
                None
            },
            None => None,
        },
        None => None,
    }
}

/// What a download needs to know of a header.
#[derive(Clone, Copy, Debug, PartialEq, Eq, Structural)]
pub struct HeaderInfo {
    /// The hash of the block before.
    pub parent_hash: H256,
    /// The hash of the block's list of uncles.
    pub uncles_hash: H256,
    /// The root hash of the block's transactions.
    pub transactions_root: H256,
    /// The hash of the header itself.
    pub hash: H256,
}

/// What a header says, where it can be read: the hash of the parent is its
/// first item, that of the uncles its second, the root of the transactions
/// its fifth.
pub open spec fn header_info(header: Seq<u8>) -> Option<HeaderInfo> {
    if hash_field(header, 0).is_some() && hash_field(header, 1).is_some() && hash_field(
        header,
        4,
    ).is_some() {
        Some(
            HeaderInfo {
                parent_hash: hash_field(header, 0).unwrap(),
                uncles_hash: hash_field(header, 1).unwrap(),
                transactions_root: hash_field(header, 4).unwrap(),
                hash: H256::from_seq(keccak256(header)),
            },
        )
    } else {
        None
    }
}

/// What tells which header a body belongs to, where the body can be read.
pub open spec fn body_id(body: Seq<u8>) -> Option<HeaderId> {
    if body_readable(body) {
        Some(
            HeaderId {
                transactions_root: H256::from_seq(
                    ordered_trie_root_of(rlp_items(rlp_item_at(body, 0).unwrap())),
                ),
                uncles: H256::from_seq(keccak256(rlp_item_at(body, 1).unwrap())),
            },
        )
    } else {
        None
    }
}

/// Reads the hash that a header holds at a place.
fn read_hash(bytes: &[u8], index: usize) -> (r: Result<H256, UtilError>)
    ensures
        match r {
            Ok(hash) => hash_field(bytes@, index as nat) == Some(hash),
            Err(_) => hash_field(bytes@, index as nat).is_none(),
        },
{
    let item = match item_at(bytes, index) {
        Ok(item) => item,
        Err(e) => {
            return Err(UtilError::Decoder(e));
        },
    };
    let data = match payload(item.as_slice()) {
        Ok(data) => data,
        Err(e) => {
            return Err(UtilError::Decoder(e));
        },
    };
    if data.len() != 32 {
        return Err(UtilError::BadHashLength);
    }
    proof {
        assert(data@.subrange(0, 32) =~= data@);
    }
    Ok(H256::from_bytes(data.as_slice(), 0))
}

/// Reads from a header what a download needs to know of it.
pub fn read_header(header: &[u8]) -> (r: Result<HeaderInfo, UtilError>)
    ensures
        match r {
            Ok(info) => header_info(header@) == Some(info),
            Err(_) => header_info(header@).is_none(),
        },
{
    let parent_hash = match read_hash(header, 0) {
        Ok(h) => h,
        Err(e) => {
            return Err(e);
        },
    };
    let uncles_hash = match read_hash(header, 1) {
        Ok(h) => h,
        Err(e) => {
            return Err(e);
        },
    };
    let transactions_root = match read_hash(header, 4) {
        Ok(h) => h,
        Err(e) => {
            return Err(e);
        },
    };
    Ok(HeaderInfo { parent_hash, uncles_hash, transactions_root, hash: keccak(header) })
}

/// Where the chain that starts at `at` ends for now: at the last block whose
/// follower is not known. `None` where the chain runs into one of `stops`.
/// No more than `fuel` steps are taken.
pub open spec fn chain_end(
    blocks: Map<H256, BlockView>,
    stops: Seq<H256>,
    at: H256,
    fuel: nat,
) -> Option<H256>
    decreases fuel,
{
    if fuel == 0 {
        Some(at)
    } else if blocks.dom().contains(at) && blocks[at].next.is_some() {
        let next = blocks[at].next.unwrap();
        if stops.contains(next) {
            None
        } else {
            chain_end(blocks, stops, next, (fuel - 1) as nat)
        }
    } else {
        Some(at)
    }
}

/// The ends of the chains that start at `heads`, those left out that run into
/// one of `stops`.
pub open spec fn chain_ends(
    blocks: Map<H256, BlockView>,
    stops: Seq<H256>,
    heads: Seq<H256>,
    fuel: nat,
) -> Seq<H256>
    decreases heads.len(),
{
    if heads.len() == 0 {
        Seq::empty()
    } else {
        let before = chain_ends(blocks, stops, heads.drop_last(), fuel);
        match chain_end(blocks, stops, heads.last(), fuel) {
            Some(end) => before.push(end),
            None => before,
        }
    }
}

/// The blocks from `at` on whose bodies are missing and whose followers are
/// known, after those in `found`, up to `count` in all. No more than `fuel`
/// steps are taken.
pub open spec fn bodies_needed(
    blocks: Map<H256, BlockView>,
    at: Option<H256>,
    found: Seq<H256>,
    count: nat,
    fuel: nat,
) -> Seq<H256>
    decreases fuel,
{
    if fuel == 0 || found.len() >= count || at.is_none() || !blocks.dom().contains(at.unwrap()) {
        found
    } else {
        let block = blocks[at.unwrap()];
        if block.body.is_none() && block.next.is_some() {
            bodies_needed(blocks, block.next, found.push(at.unwrap()), count, (fuel - 1) as nat)
        } else {
            bodies_needed(blocks, block.next, found, count, (fuel - 1) as nat)
        }
    }
}

/// The blocks from `at` on that are whole and whose followers are known,
/// after those in `found`, with the block at which this ends. No more than
/// `fuel` steps are taken.
pub open spec fn whole_blocks(
    blocks: Map<H256, BlockView>,
    at: H256,
    found: Seq<H256>,
    fuel: nat,
) -> (Seq<H256>, H256)
    decreases fuel,
{
    if fuel > 0 && blocks.dom().contains(at) && blocks[at].body.is_some()
        && blocks[at].next.is_some() {
        whole_blocks(blocks, blocks[at].next.unwrap(), found.push(at), (fuel - 1) as nat)
    } else {
        (found, at)
    }
}

/// A whole block as it is handed on: the list of its header, its
/// transactions and its uncles.
pub open spec fn block_bytes(block: BlockView) -> Seq<u8> {
    let body = block.body.unwrap();
    rlp_list(block.header + rlp_item_at(body, 0).unwrap() + rlp_item_at(body, 1).unwrap())
}

/// The blocks without those whose hashes are listed.
pub open spec fn blocks_without(blocks: Map<H256, BlockView>, gone: Seq<H256>) -> Map<
    H256,
    BlockView,
>
    decreases gone.len(),
{
    if gone.len() == 0 {
        blocks
    } else {
        blocks_without(blocks, gone.drop_last()).remove(gone.last())
    }
}

/// Whether the header says that its block has neither transactions nor
/// uncles, so that its body is known without a download.
pub open spec fn has_empty_body(info: HeaderInfo) -> bool {
    info.transactions_root == null_root() && info.uncles_hash == empty_list_hash()
        && body_readable(empty_body())
}

/// The first of `heads` that is not in `downloading`, or the first of all
/// where `ignore` is set.
pub open spec fn first_free(heads: Seq<H256>, downloading: Set<H256>, ignore: bool) -> Option<H256>
    decreases heads.len(),
{
    if heads.len() == 0 {
        None
    } else if ignore || !downloading.contains(heads[0]) {
        Some(heads[0])
    } else {
        first_free(heads.drop_first(), downloading, ignore)
    }
}

/// What a collection holds, as plain values.
pub struct CollectionView {
    /// The heads of the chains to download.
    pub heads: Seq<H256>,
    /// The blocks brought so far, by hash.
    pub blocks: Map<H256, BlockView>,
    /// The number of blocks brought so far.
    pub block_count: nat,
    /// For each known parent hash, the hash of a block that names it.
    pub parents: Map<H256, H256>,
    /// For each body that is awaited, the hash of the header that it belongs to.
    pub header_ids: Map<HeaderId, H256>,
    /// The first block that has not been handed on.
    pub head: Option<H256>,
    /// The headers that are being downloaded.
    pub downloading_headers: Set<H256>,
    /// The bodies that are being downloaded.
    pub downloading_bodies: Set<H256>,
}

impl CollectionView {
    /// The collection after a header has been offered: one that cannot be
    /// read changes nothing. The block is linked to its parent, where that is
    /// there, and to a block that names it as parent, where one is known. A
    /// body is awaited unless the header says that it is empty.
    pub open spec fn header_taken(self, header: Seq<u8>) -> CollectionView {
        match header_info(header) {
            None => self,
            Some(info) => {
                let linked = if self.blocks.dom().contains(info.parent_hash) {
                    self.blocks.insert(
                        info.parent_hash,
                        BlockView { next: Some(info.hash), ..self.blocks[info.parent_hash] },
                    )
                } else {
                    self.blocks
                };
                let block = BlockView {
                    header,
                    body: if has_empty_body(info) {
                        Some(empty_body())
                    } else {
                        None
                    },
                    next: if self.parents.dom().contains(info.hash) {
                        Some(self.parents[info.hash])
                    } else {
                        None
                    },
                };
                CollectionView {
                    blocks: linked.insert(info.hash, block),
                    block_count: if linked.dom().contains(info.hash) {
                        self.block_count
                    } else {
                        self.block_count + 1
                    },
                    parents: self.parents.insert(info.parent_hash, info.hash),
                    header_ids: if has_empty_body(info) {
                        self.header_ids
                    } else {
                        self.header_ids.insert(
                            HeaderId {
                                transactions_root: info.transactions_root,
                                uncles: info.uncles_hash,
                            },
                            info.hash,
                        )
                    },
                    ..self
                }
            },
        }
    }

    /// The collection after the headers have been offered in order.
    pub open spec fn headers_taken(self, headers: Seq<Seq<u8>>) -> CollectionView
        decreases headers.len(),
    {
        if headers.len() == 0 {
            self
        } else {
            self.headers_taken(headers.drop_last()).header_taken(headers.last())
        }
    }

    /// The collection after each head has moved to the end of its chain,
    /// those heads dropped whose chains run into another head.
    pub open spec fn heads_moved(self) -> CollectionView {
        CollectionView {
            heads: chain_ends(self.blocks, self.heads, self.heads, self.block_count),
            ..self
        }
    }

    /// The collection after a body has been offered: one that cannot be read,
    /// or that no header awaits, changes nothing. The body goes to the block
    /// of the header that awaits it, which awaits it no longer.
    pub open spec fn body_taken(self, body: Seq<u8>) -> CollectionView {
        match body_id(body) {
            None => self,
            Some(id) => if self.header_ids.dom().contains(id) {
                let hash = self.header_ids[id];
                CollectionView {
                    header_ids: self.header_ids.remove(id),
                    blocks: if self.blocks.dom().contains(hash) {
                        self.blocks.insert(
                            hash,
                            BlockView { body: Some(body), ..self.blocks[hash] },
                        )
                    } else {
                        self.blocks
                    },
                    ..self
                }
            } else {
                self
            },
        }
    }

    /// The collection after the bodies have been offered in order.
    pub open spec fn bodies_taken(self, bodies: Seq<Seq<u8>>) -> CollectionView
        decreases bodies.len(),
    {
        if bodies.len() == 0 {
            self
        } else {
            self.bodies_taken(bodies.drop_last()).body_taken(bodies.last())
        }
    }

    /// The collection that holds nothing.
    pub open spec fn blank() -> CollectionView {
        CollectionView {
            heads: Seq::empty(),
            blocks: Map::empty(),
            block_count: 0,
            parents: Map::empty(),
            header_ids: Map::empty(),
            head: None,
            downloading_headers: Set::empty(),
            downloading_bodies: Set::empty(),
        }
    }
}

/// The blocks of a download.
pub struct BlockCollection {
    heads: Vec<H256>,
    blocks: Table<H256, SyncBlock>,
    parents: Table<H256, H256>,
    header_ids: Table<HeaderId, H256>,
    head: Option<H256>,
    downloading_headers: Table<H256, ()>,
    downloading_bodies: Table<H256, ()>,
}

/// Whether the hash is in the list.
fn list_contains(list: &Vec<H256>, hash: &H256) -> (r: bool)
    ensures
        r == list@.contains(*hash),
{
    let mut i: usize = 0;
    while i < list.len()
        invariant
            i <= list@.len(),
            forall|j: int| 0 <= j < i ==> list@[j] != *hash,
        decreases list@.len() - i,
    {
        if list[i] == *hash {
            return true;
        }
        i = i + 1;
    }
    false
}

/// The blocks of a table as plain values.
spec fn block_views(blocks: Map<H256, SyncBlock>) -> Map<H256, BlockView> {
    Map::new(|h: H256| blocks.dom().contains(h), |h: H256| blocks[h]@)
}

impl View for BlockCollection {
    type V = CollectionView;

    closed spec fn view(&self) -> CollectionView {
        CollectionView {
            heads: self.heads@,
            blocks: block_views(self.blocks@),
            block_count: self.blocks.count(),
            parents: self.parents@,
            header_ids: self.header_ids@,
            head: self.head,
            downloading_headers: self.downloading_headers@.dom(),
            downloading_bodies: self.downloading_bodies@.dom(),
        }
    }
}

impl BlockCollection {
    /// What holds of every collection that this module hands out: of every
    /// body that is there, the transactions and the uncles can be read.
    pub closed spec fn wf(&self) -> bool {
        &&& self.blocks.wf()
        &&& self.parents.wf()
        &&& self.header_ids.wf()
        &&& self.downloading_headers.wf()
        &&& self.downloading_bodies.wf()
        &&& forall|h: H256| #[trigger]
            self.blocks@.dom().contains(h) ==> (self.blocks@[h]@.body matches Some(b)
                ==> body_readable(b))
    }

    /// A collection that holds nothing.
    pub fn new() -> (r: BlockCollection)
        ensures
            r.wf(),
            r@ == CollectionView::blank(),
    {
        let r = BlockCollection {
            blocks: Table::new(),
            header_ids: Table::new(),
            heads: Vec::new(),
            parents: Table::new(),
            head: None,
            downloading_headers: Table::new(),
            downloading_bodies: Table::new(),
        };
        proof {
            assert(r@.blocks =~= Map::<H256, BlockView>::empty());
            assert(r@.downloading_headers =~= Set::<H256>::empty());
            assert(r@.downloading_bodies =~= Set::<H256>::empty());
        }
        r
    }

    /// Lets go of everything.
    pub fn clear(&mut self)
        ensures
            final(self).wf(),
            final(self)@ == CollectionView::blank(),
    {
        self.blocks.clear();
        self.parents.clear();
        self.header_ids.clear();
        self.heads.clear();
        self.head = None;
        self.downloading_headers.clear();
        self.downloading_bodies.clear();
        proof {
            assert(self@.blocks =~= Map::<H256, BlockView>::empty());
            assert(self@.downloading_headers =~= Set::<H256>::empty());
            assert(self@.downloading_bodies =~= Set::<H256>::empty());
        }
    }

    /// Lets go of everything and starts anew with the heads given.
    pub fn reset_to(&mut self, hashes: Vec<H256>)
        ensures
            final(self).wf(),
            final(self)@ == (CollectionView { heads: hashes@, ..CollectionView::blank() }),
    {
        self.clear();
        self.heads = hashes;
    }

    /// Whether no block is held.
    pub fn is_empty(&self) -> (r: bool)
        requires
            self.wf(),
        ensures
            r == (self@.blocks == Map::<H256, BlockView>::empty()),
            r == (self@.block_count == 0),
    {
        let r = self.blocks.is_empty();
        proof {
            if r {
                assert(self@.blocks =~= Map::<H256, BlockView>::empty());
            } else {
                self.blocks.lemma_count_zero();
                assert(self.blocks@.dom() =~= self@.blocks.dom());
                if self@.blocks == Map::<H256, BlockView>::empty() {
                    assert(self.blocks@ =~= Map::<H256, SyncBlock>::empty());
                }
            }
        }
        r
    }

    /// Whether the block with the hash is held.
    pub fn contains(&self, hash: &H256) -> (r: bool)
        requires
            self.wf(),
        ensures
            r == self@.blocks.dom().contains(*hash),
    {
        self.blocks.contains_key(hash)
    }

    /// A measure of the memory that the blocks take: for each block the size
    /// of its hash and of its entry, without what the entry's header and
    /// body hold; and no more than a machine word can count.
    pub fn heap_size(&self) -> (r: usize)
        requires
            self.wf(),
        ensures
            r == if self@.block_count * entry_size() <= usize::MAX {
                self@.block_count * entry_size()
            } else {
                usize::MAX as nat
            },
    {
        let count = self.blocks.len();
        let key = core::mem::size_of::<H256>();
        let value = core::mem::size_of::<SyncBlock>();
        let ghost blocks = self@.block_count;
        let ghost each_size = entry_size();
        assert(count == blocks);
        assert(key + value == each_size);
        match key.checked_add(value) {
            Some(each) => match count.checked_mul(each) {
                Some(size) => size,
                None => usize::MAX,
            },
            None => {
                if count == 0 {
                    assert(blocks * each_size == 0) by (nonlinear_arith)
                        requires
                            blocks == 0,
                    ;
                    0
                } else {
                    assert(blocks * each_size >= each_size) by (nonlinear_arith)
                        requires
                            blocks >= 1,
                    ;
                    usize::MAX
                }
            },
        }
    }

    /// The number of heads of chains to download.
    pub fn head_count(&self) -> (r: usize)
        ensures
            r == self@.heads.len(),
    {
        self.heads.len()
    }

    /// Whether nothing at all is held: no head, no block, no link, nothing
    /// awaited and nothing being downloaded.
    pub fn is_blank(&self) -> (r: bool)
        requires
            self.wf(),
        ensures
            r == (self@ == CollectionView::blank()),
    {
        let r = self.heads.len() == 0 && self.blocks.is_empty() && self.parents.is_empty()
            && self.header_ids.is_empty() && self.head.is_none()
            && self.downloading_headers.is_empty() && self.downloading_bodies.is_empty();
        proof {
            if r {
                assert(self@.blocks =~= Map::<H256, BlockView>::empty());
                assert(self@.downloading_headers =~= Set::<H256>::empty());
                assert(self@.downloading_bodies =~= Set::<H256>::empty());
                assert(self@.heads =~= Seq::<H256>::empty());
            } else {
                self.blocks.lemma_count_zero();
                self.downloading_headers.lemma_count_zero();
                self.downloading_bodies.lemma_count_zero();
                if self@ == CollectionView::blank() {
                    assert(self.downloading_headers@ =~= Map::<H256, ()>::empty());
                    assert(self.downloading_bodies@ =~= Map::<H256, ()>::empty());
                }
            }
        }
        r
    }

    /// Whether the header or the body with the hash is being downloaded.
    pub fn is_downloading(&self, hash: &H256) -> (r: bool)
        requires
            self.wf(),
        ensures
            r == (self@.downloading_headers.contains(*hash) || self@.downloading_bodies.contains(
                *hash,
            )),
    {
        self.downloading_headers.contains_key(hash) || self.downloading_bodies.contains_key(hash)
    }

    /// Notes that neither the header nor the body with the hash is being
    /// downloaded any more.
    pub fn clear_download(&mut self, hash: &H256)
        requires
            old(self).wf(),
        ensures
            final(self).wf(),
            final(self)@ == (CollectionView {
                downloading_headers: old(self)@.downloading_headers.remove(*hash),
                downloading_bodies: old(self)@.downloading_bodies.remove(*hash),
                ..old(self)@
            }),
    {
        let _ = self.downloading_headers.remove(hash);
        let _ = self.downloading_bodies.remove(hash);
        proof {
            assert(self@.downloading_headers =~= old(self)@.downloading_headers.remove(*hash));
            assert(self@.downloading_bodies =~= old(self)@.downloading_bodies.remove(*hash));
        }
    }

    /// The first head whose header is not being downloaded yet, or the first
    /// head of all where that does not matter, with the number of headers to
    /// ask for. The head is noted as being downloaded.
    pub fn needed_headers(&mut self, count: usize, ignore_downloading: bool) -> (r: Option<
        (H256, usize),
    >)
        requires
            old(self).wf(),
        ensures
            final(self).wf(),
            match first_free(old(self)@.heads, old(self)@.downloading_headers, ignore_downloading) {
                Some(hash) => r == Some((hash, count)) && final(self)@ == (CollectionView {
                    downloading_headers: old(self)@.downloading_headers.insert(hash),
                    ..old(self)@
                }),
                None => r.is_none() && final(self)@ == old(self)@,
            },
    {
        let mut i: usize = 0;
        proof {
            assert(self.heads@.subrange(0, self.heads@.len() as int) =~= self.heads@);
        }
        while i < self.heads.len()
            invariant
                i <= self.heads@.len(),
                self.wf(),
                *self == *old(self),
                first_free(self.heads@, self.downloading_headers@.dom(), ignore_downloading)
                    == first_free(
                    self.heads@.subrange(i as int, self.heads@.len() as int),
                    self.downloading_headers@.dom(),
                    ignore_downloading,
                ),
            decreases self.heads@.len() - i,
        {
            let h = self.heads[i];
            proof {
                let rest = self.heads@.subrange(i as int, self.heads@.len() as int);
                assert(rest[0] == h);
                assert(rest.drop_first() =~= self.heads@.subrange(i + 1, self.heads@.len() as int));
            }
            if ignore_downloading || !self.downloading_headers.contains_key(&h) {
                self.downloading_headers.insert(h, ());
                proof {
                    assert(self@.downloading_headers =~= old(self)@.downloading_headers.insert(h));
                }
                return Some((h, count));
            }
            i = i + 1;
        }
        proof {
            assert(self.heads@.subrange(i as int, self.heads@.len() as int).len() == 0);
        }
        None
    }

    /// Takes a header: links its block to the blocks around it and awaits its
    /// body, unless the header says that the body is empty. A header that
    /// cannot be read is turned away and changes nothing.
    pub fn insert_header(&mut self, header: Vec<u8>) -> (r: Result<H256, UtilError>)
        requires
            old(self).wf(),
        ensures
            final(self).wf(),
            final(self)@ == old(self)@.header_taken(header@),
            match r {
                Ok(hash) => header_info(header@) matches Some(info) && info.hash == hash,
                Err(_) => header_info(header@).is_none(),
            },
    {
        let info = match read_header(header.as_slice()) {
            Ok(info) => info,
            Err(e) => {
                return Err(e);
            },
        };
        let hash = info.hash;
        let header_id = HeaderId {
            transactions_root: info.transactions_root,
            uncles: info.uncles_hash,
        };
        let mut body: Option<Vec<u8>> = None;
        if info.transactions_root == sha3_null_rlp() && info.uncles_hash == sha3_empty_list_rlp() {
            let mut null_item: Vec<u8> = Vec::new();
            null_item.push(0x80u8);
            let mut empty_list: Vec<u8> = Vec::new();
            empty_list.push(0xc0u8);
            proof {
                assert(null_item@ =~= seq![0x80u8]);
                assert(empty_list@ =~= seq![0xc0u8]);
            }
            let encoded = encode_raw_pair(null_item.as_slice(), empty_list.as_slice());
            let first = item_at(encoded.as_slice(), 0);
            let second = item_at(encoded.as_slice(), 1);
            if first.is_ok() && second.is_ok() {
                body = Some(encoded);
            }
        }
        if body.is_none() {
            self.header_ids.insert(header_id, hash);
        }
        let next: Option<H256> = match self.parents.get(&hash) {
            Some(p) => Some(*p),
            None => None,
        };
        let ghost before = self.blocks@;
        let ghost count_before = self.blocks.count();
        match self.blocks.remove(&info.parent_hash) {
            Some(parent) => {
                let mut parent = parent;
                parent.next = Some(hash);
                assert(!self.blocks@.dom().contains(info.parent_hash));
                self.blocks.insert(info.parent_hash, parent);
            },
            None => {},
        }
        let ghost linked = self.blocks@;
        proof {
            assert(self.blocks.count() == count_before);
            assert(block_views(before).dom() =~= before.dom());
            if before.dom().contains(info.parent_hash) {
                assert(block_views(linked) =~= block_views(before).insert(
                    info.parent_hash,
                    BlockView { next: Some(hash), ..before[info.parent_hash]@ },
                ));
            } else {
                assert(block_views(linked) =~= block_views(before));
            }
        }
        self.parents.insert(info.parent_hash, hash);
        let block = SyncBlock { header, body, next };
        self.blocks.insert(hash, block);
        proof {
            assert(block_views(self.blocks@) =~= block_views(linked).insert(hash, block@));
            assert(linked.dom() =~= block_views(linked).dom());
            let want = old(self)@.header_taken(header@);
            assert(self@.blocks == want.blocks);
            assert(self@.block_count == want.block_count);
            assert(self@.parents == want.parents);
            assert(self@.header_ids == want.header_ids);
            assert(self@.heads == want.heads);
            assert(self@.head == want.head);
            assert(self@.downloading_headers == want.downloading_headers);
            assert(self@.downloading_bodies == want.downloading_bodies);
        }
        Ok(hash)
    }

    /// Takes headers in order, then moves each head to the end of its chain.
    /// Headers that cannot be read are passed over.
    pub fn insert_headers(&mut self, headers: Vec<Vec<u8>>)
        requires
            old(self).wf(),
        ensures
            final(self).wf(),
            final(self)@ == old(self)@.headers_taken(headers.deep_view()).heads_moved(),
    {
        let mut i: usize = 0;
        while i < headers.len()
            invariant
                i <= headers@.len(),
                self.wf(),
                self@ == old(self)@.headers_taken(headers.deep_view().subrange(0, i as int)),
            decreases headers@.len() - i,
        {
            let header = copy_bytes(headers[i].as_slice());
            proof {
                let views = headers.deep_view();
                assert(views.subrange(0, i + 1).drop_last() =~= views.subrange(0, i as int));
                assert(views.subrange(0, i + 1).last() == header@);
            }
            let _ = self.insert_header(header);
            i = i + 1;
        }
        proof {
            let views = headers.deep_view();
            assert(views.subrange(0, i as int) =~= views);
        }
        self.update_heads();
    }

    /// Takes a body: it goes to the block of the header that awaits it. A
    /// body that cannot be read is turned away; one that no header awaits is
    /// passed over. Either changes nothing.
    pub fn insert_body(&mut self, b: Vec<u8>) -> (r: Result<(), UtilError>)
        requires
            old(self).wf(),
        ensures
            final(self).wf(),
            final(self)@ == old(self)@.body_taken(b@),
            r.is_ok() == body_readable(b@),
    {
        let tx = match item_at(b.as_slice(), 0) {
            Ok(tx) => tx,
            Err(e) => {
                return Err(UtilError::Decoder(e));
            },
        };
        let raw_transactions = items(tx.as_slice());
        let tx_root = ordered_trie_root(&raw_transactions);
        let raw_uncles = match item_at(b.as_slice(), 1) {
            Ok(raw) => raw,
            Err(e) => {
                return Err(UtilError::Decoder(e));
            },
        };
        let uncles = keccak(raw_uncles.as_slice());
        let header_id = HeaderId { transactions_root: tx_root, uncles };
        let found: Option<H256> = match self.header_ids.get(&header_id) {
            Some(h) => Some(*h),
            None => None,
        };
        match found {
            Some(h) => {
                let _ = self.header_ids.remove(&header_id);
                let ghost before = self.blocks@;
                let ghost count_before = self.blocks.count();
                match self.blocks.remove(&h) {
                    Some(block) => {
                        let mut block = block;
                        block.body = Some(b);
                        assert(!self.blocks@.dom().contains(h));
                        self.blocks.insert(h, block);
                        assert(self.blocks.count() == count_before);
                        proof {
                            assert(block_views(self.blocks@) =~= block_views(before).insert(
                                h,
                                BlockView { body: Some(b@), ..before[h]@ },
                            ));
                        }
                    },
                    None => {
                        proof {
                            assert(block_views(self.blocks@) =~= block_views(before));
                        }
                    },
                }
            },
            None => {},
        }
        proof {
            let want = old(self)@.body_taken(b@);
            assert(self@.blocks == want.blocks);
            assert(self@.block_count == want.block_count);
            assert(self@.parents == want.parents);
            assert(self@.header_ids == want.header_ids);
            assert(self@.heads == want.heads);
        }
        Ok(())
    }

    /// Takes bodies in order. Bodies that cannot be read are passed over.
    pub fn insert_bodies(&mut self, bodies: Vec<Vec<u8>>)
        requires
            old(self).wf(),
        ensures
            final(self).wf(),
            final(self)@ == old(self)@.bodies_taken(bodies.deep_view()),
    {
        let mut i: usize = 0;
        while i < bodies.len()
            invariant
                i <= bodies@.len(),
                self.wf(),
                self@ == old(self)@.bodies_taken(bodies.deep_view().subrange(0, i as int)),
            decreases bodies@.len() - i,
        {
            let body = copy_bytes(bodies[i].as_slice());
            proof {
                let views = bodies.deep_view();
                assert(views.subrange(0, i + 1).drop_last() =~= views.subrange(0, i as int));
                assert(views.subrange(0, i + 1).last() == body@);
            }
            let _ = self.insert_body(body);
            i = i + 1;
        }
        proof {
            let views = bodies.deep_view();
            assert(views.subrange(0, i as int) =~= views);
        }
    }

    /// Moves each head to the end of its chain; a head whose chain runs into
    /// another head is dropped.
    pub fn update_heads(&mut self)
        requires
            old(self).wf(),
        ensures
            final(self).wf(),
            final(self)@ == old(self)@.heads_moved(),
    {
        let mut new_heads: Vec<H256> = Vec::new();
        let limit: usize = self.blocks.len();
        let mut i: usize = 0;
        while i < self.heads.len()
            invariant
                i <= self.heads@.len(),
                self.wf(),
                *self == *old(self),
                limit == self.blocks.count(),
                new_heads@ == chain_ends(
                    block_views(self.blocks@),
                    self.heads@,
                    self.heads@.subrange(0, i as int),
                    limit as nat,
                ),
            decreases self.heads@.len() - i,
        {
            let start = self.heads[i];
            let mut h = start;
            let mut left: usize = limit;
            let mut end: Option<H256> = None;
            let mut done: bool = false;
            while !done
                invariant
                    self.wf(),
                    *self == *old(self),
                    left <= limit,
                    chain_end(block_views(self.blocks@), self.heads@, start, limit as nat) == if done {
                        end
                    } else {
                        chain_end(block_views(self.blocks@), self.heads@, h, left as nat)
                    },
                decreases left, if done { 0int } else { 1int },
            {
                if left == 0 {
                    end = Some(h);
                    done = true;
                } else {
                    let next: Option<H256> = match self.blocks.get(&h) {
                        Some(block) => block.next,
                        None => None,
                    };
                    match next {
                        Some(n) => {
                            if list_contains(&self.heads, &n) {
                                end = None;
                                done = true;
                            } else {
                                h = n;
                                left = left - 1;
                            }
                        },
                        None => {
                            end = Some(h);
                            done = true;
                        },
                    }
                }
            }
            proof {
                assert(self.heads@.subrange(0, i + 1).drop_last() =~= self.heads@.subrange(
                    0,
                    i as int,
                ));
                assert(self.heads@.subrange(0, i + 1).last() == start);
            }
            match end {
                Some(e) => {
                    new_heads.push(e);
                },
                None => {},
            }
            i = i + 1;
        }
        proof {
            assert(self.heads@.subrange(0, i as int) =~= self.heads@);
        }
        self.heads = new_heads;
    }

    /// The blocks, from the first that has not been handed on, whose bodies
    /// are missing, up to `count` of them. They are noted as being downloaded.
    pub fn needed_bodies(&mut self, count: usize, _ignore_downloading: bool) -> (r: Vec<H256>)
        requires
            old(self).wf(),
        ensures
            final(self).wf(),
            r@ == bodies_needed(
                old(self)@.blocks,
                old(self)@.head,
                Seq::empty(),
                count as nat,
                old(self)@.block_count,
            ),
            final(self)@ == (CollectionView {
                downloading_bodies: old(self)@.downloading_bodies.union(r@.to_set()),
                ..old(self)@
            }),
    {
        let mut needed_bodies: Vec<H256> = Vec::new();
        let mut head: Option<H256> = self.head;
        let mut left: usize = self.blocks.len();
        let mut done: bool = false;
        while !done
            invariant
                self.wf(),
                *self == *old(self),
                bodies_needed(
                    block_views(self.blocks@),
                    self.head,
                    Seq::empty(),
                    count as nat,
                    self.blocks.count(),
                ) == if done {
                    needed_bodies@
                } else {
                    bodies_needed(
                        block_views(self.blocks@),
                        head,
                        needed_bodies@,
                        count as nat,
                        left as nat,
                    )
                },
            decreases left, if done { 0int } else { 1int },
        {
            if left == 0 || needed_bodies.len() >= count {
                done = true;
            } else {
                match head {
                    None => {
                        done = true;
                    },
                    Some(h) => {
                        match self.blocks.get(&h) {
                            Some(block) => {
                                if block.body.is_none() && block.next.is_some() {
                                    needed_bodies.push(h);
                                }
                                head = block.next;
                                left = left - 1;
                            },
                            None => {
                                done = true;
                            },
                        }
                    },
                }
            }
        }
        let mut i: usize = 0;
        proof {
            assert(needed_bodies@.subrange(0, 0).to_set() =~= Set::<H256>::empty());
            assert(old(self)@.downloading_bodies.union(Set::<H256>::empty())
                =~= old(self)@.downloading_bodies);
        }
        while i < needed_bodies.len()
            invariant
                i <= needed_bodies@.len(),
                self.wf(),
                self@ == (CollectionView {
                    downloading_bodies: old(self)@.downloading_bodies.union(
                        needed_bodies@.subrange(0, i as int).to_set(),
                    ),
                    ..old(self)@
                }),
            decreases needed_bodies@.len() - i,
        {
            self.downloading_bodies.insert(needed_bodies[i], ());
            proof {
                let longer = needed_bodies@.subrange(0, i + 1);
                let shorter = needed_bodies@.subrange(0, i as int);
                assert forall|a: H256| longer.to_set().contains(a) == (shorter.to_set().contains(a)
                    || a == needed_bodies@[i as int]) by {
                    if longer.contains(a) {
                        let k = choose|k: int| 0 <= k < longer.len() && longer[k] == a;
                        if k < i {
                            assert(shorter[k] == a);
                        }
                    }
                    if shorter.contains(a) {
                        let k = choose|k: int| 0 <= k < shorter.len() && shorter[k] == a;
                        assert(longer[k] == a);
                    }
                    if a == needed_bodies@[i as int] {
                        assert(longer[i as int] == a);
                    }
                }
                assert(self@.downloading_bodies =~= old(self)@.downloading_bodies.union(
                    longer.to_set(),
                ));
            }
            i = i + 1;
        }
        proof {
            assert(needed_bodies@.subrange(0, i as int) =~= needed_bodies@);
        }
        needed_bodies
    }

    /// Hands on the whole blocks from the first that has not been handed on,
    /// as far as each one's follower is known, and lets go of them.
    pub fn drain(&mut self) -> (r: Vec<Vec<u8>>)
        requires
            old(self).wf(),
        ensures
            final(self).wf(),
            old(self)@.block_count == 0 || old(self)@.head.is_none() ==> r@.len() == 0
                && final(self)@ == old(self)@,
            old(self)@.block_count > 0 && old(self)@.head.is_some() ==> ({
                let found = whole_blocks(
                    old(self)@.blocks,
                    old(self)@.head.unwrap(),
                    Seq::empty(),
                    old(self)@.block_count,
                );
                &&& r@.len() == found.0.len()
                &&& forall|k: int|
                    0 <= k < r@.len() ==> (#[trigger] r@[k])@ == block_bytes(
                        old(self)@.blocks[found.0[k]],
                    )
                &&& final(self)@.head == Some(found.1)
                &&& final(self)@.blocks == blocks_without(old(self)@.blocks, found.0)
                &&& final(self)@.heads == old(self)@.heads
                &&& final(self)@.parents == old(self)@.parents
                &&& final(self)@.header_ids == old(self)@.header_ids
                &&& final(self)@.downloading_headers == old(self)@.downloading_headers
                &&& final(self)@.downloading_bodies == old(self)@.downloading_bodies
            }),
    {
        let start = match self.head {
            Some(h) => h,
            None => {
                return Vec::new();
            },
        };
        if self.blocks.is_empty() {
            return Vec::new();
        }
        let mut drained: Vec<Vec<u8>> = Vec::new();
        let mut hashes: Vec<H256> = Vec::new();
        let mut head: H256 = start;
        let mut left: usize = self.blocks.len();
        let mut done: bool = false;
        let ghost blocks = block_views(self.blocks@);
        while !done
            invariant
                self.wf(),
                self.blocks == old(self).blocks,
                self.heads == old(self).heads,
                self.parents == old(self).parents,
                self.header_ids == old(self).header_ids,
                self.downloading_headers == old(self).downloading_headers,
                self.downloading_bodies == old(self).downloading_bodies,
                self.head == Some(head),
                blocks == block_views(self.blocks@),
                drained@.len() == hashes@.len(),
                forall|k: int|
                    0 <= k < drained@.len() ==> (#[trigger] drained@[k])@ == block_bytes(
                        blocks[hashes@[k]],
                    ),
                whole_blocks(blocks, start, Seq::empty(), old(self).blocks.count()) == if done {
                    (hashes@, head)
                } else {
                    whole_blocks(blocks, head, hashes@, left as nat)
                },
            decreases left, if done { 0int } else { 1int },
        {
            if left == 0 {
                done = true;
            } else {
                match self.blocks.get(&head) {
                    Some(block) => {
                        match (&block.body, block.next) {
                            (Some(body), Some(next)) => {
                                let transactions = match item_at(body.as_slice(), 0) {
                                    Ok(raw) => raw,
                                    Err(_) => Vec::new(),
                                };
                                let uncles = match item_at(body.as_slice(), 1) {
                                    Ok(raw) => raw,
                                    Err(_) => Vec::new(),
                                };
                                let encoded = encode_raw_triple(
                                    block.header.as_slice(),
                                    transactions.as_slice(),
                                    uncles.as_slice(),
                                );
                                drained.push(encoded);
                                hashes.push(head);
                                self.head = Some(next);
                                head = next;
                                left = left - 1;
                            },
                            _ => {
                                done = true;
                            },
                        }
                    },
                    None => {
                        done = true;
                    },
                }
            }
        }
        let mut i: usize = 0;
        while i < hashes.len()
            invariant
                i <= hashes@.len(),
                self.wf(),
                self.heads == old(self).heads,
                self.parents == old(self).parents,
                self.header_ids == old(self).header_ids,
                self.downloading_headers == old(self).downloading_headers,
                self.downloading_bodies == old(self).downloading_bodies,
                self.head == Some(head),
                block_views(self.blocks@) == blocks_without(blocks, hashes@.subrange(0, i as int)),
            decreases hashes@.len() - i,
        {
            let ghost before = self.blocks@;
            let _ = self.blocks.remove(&hashes[i]);
            proof {
                assert(hashes@.subrange(0, i + 1).drop_last() =~= hashes@.subrange(0, i as int));
                assert(block_views(self.blocks@) =~= block_views(before).remove(hashes@[i as int]));
            }
            i = i + 1;
        }
        proof {
            assert(hashes@.subrange(0, i as int) =~= hashes@);
        }
        drained
    }
}

} // verus!
