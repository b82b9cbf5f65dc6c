//! Recursive-length-prefix encoding, as the `rlp` crate writes and reads it.

use vstd::prelude::*;
use crate::bytes::be_minimal;

verus! {

/// The digits of a length as a long header writes them: those of the length's
/// lowest 32 bits, without leading zeros.
pub open spec fn length_digits(len: nat) -> Seq<u8> {
    be_minimal(len % 0x1_0000_0000)
}

/// The encoding of a byte string: a single byte below 0x80 stands for itself;
/// up to 55 bytes follow a header byte that holds the length; more bytes
/// follow a header byte and the digits of the length.
pub open spec fn rlp_bytes(data: Seq<u8>) -> Seq<u8> {
    if data.len() == 1 && data[0] < 0x80 {
        data
    } else if data.len() <= 55 {
        seq![(0x80 + data.len()) as u8] + data
    } else {
        seq![(0xb7 + length_digits(data.len()).len()) as u8] + length_digits(data.len()) + data
    }
}

/// The encoding of a list whose encoded items, joined, are `payload`.
pub open spec fn rlp_list(payload: Seq<u8>) -> Seq<u8> {
    if payload.len() <= 55 {
        seq![(0xc0 + payload.len()) as u8] + payload
    } else {
        seq![(0xf7 + length_digits(payload.len()).len()) as u8] + length_digits(payload.len())
            + payload
    }
}

/// The byte strings of a sequence, joined in order.
pub open spec fn joined(items: Seq<Seq<u8>>) -> Seq<u8>
    decreases items.len(),
{
    if items.len() == 0 {
        Seq::empty()
    } else {
        joined(items.drop_last()) + items.last()
    }
}

#[verifier::external_type_specification]
#[verifier::external_body]
pub struct ExRlpStream(rlp::RlpStream);

/// The items that were appended to a stream's list so far, each as the bytes
/// that it was encoded to, in the order of the appends.
pub uninterp spec fn stream_items(stream: rlp::RlpStream) -> Seq<Seq<u8>>;

/// The number of items that a stream's list was opened for.
pub uninterp spec fn stream_limit(stream: rlp::RlpStream) -> nat;

/// Calls `rlp::RlpStream::new_list`.
///
/// Not proved: that the stream holds a list opened for `len` items, with no
/// item appended yet.
#[verifier::external_body]
pub(crate) fn stream_new_list(len: usize) -> (stream: rlp::RlpStream)
    ensures
        stream_items(stream) == Seq::<Seq<u8>>::empty(),
        stream_limit(stream) == len,
{
    rlp::RlpStream::new_list(len)
}

/// Calls `rlp::RlpStream::append` with a byte string.
///
/// Not proved: that the list gets the encoding of the byte string as its next
/// item. A list that is full is left out: the crate would write past its end
/// or panic.
#[verifier::external_body]
pub(crate) fn stream_append_bytes(stream: &mut rlp::RlpStream, data: &[u8])
    requires
        stream_items(*old(stream)).len() < stream_limit(*old(stream)),
    ensures
        stream_items(*final(stream)) == stream_items(*old(stream)).push(rlp_bytes(data@)),
        stream_limit(*final(stream)) == stream_limit(*old(stream)),
{
    stream.append(&data);
}

/// Calls `rlp::RlpStream::append_raw` with one encoded item.
///
/// Not proved: that the list gets the bytes, as they are, as its next item. A
/// list that is full is left out: the crate would write past its end or panic.
#[verifier::external_body]
pub(crate) fn stream_append_raw(stream: &mut rlp::RlpStream, item: &[u8])
    requires
        stream_items(*old(stream)).len() < stream_limit(*old(stream)),
    ensures
        stream_items(*final(stream)) == stream_items(*old(stream)).push(item@),
        stream_limit(*final(stream)) == stream_limit(*old(stream)),
{
    stream.append_raw(item, 1);
}

/// Calls `rlp::RlpStream::out`.
///
/// Not proved: that a stream whose list is full yields the list's encoding:
/// the header for the length of the items, then the items. A list that is not
/// full is left out: the crate panics on it.
#[verifier::external_body]
pub(crate) fn stream_out(stream: rlp::RlpStream) -> (encoded: Vec<u8>)
    requires
        stream_items(stream).len() == stream_limit(stream),
    ensures
        encoded@ == rlp_list(joined(stream_items(stream))),
{
    stream.out().to_vec()
}

/// The encoding of the list of two byte strings.
pub fn encode_pair(first: &[u8], second: &[u8]) -> (encoded: Vec<u8>)
    ensures
        encoded@ == rlp_list(rlp_bytes(first@) + rlp_bytes(second@)),
{
    let mut stream = stream_new_list(2);
    stream_append_bytes(&mut stream, first);
    stream_append_bytes(&mut stream, second);
    proof {
        let items = stream_items(stream);
        let head = items.drop_last();
        assert(items.len() == 2);
        assert(items.last() == rlp_bytes(second@));
        assert(head =~= seq![rlp_bytes(first@)]);
        assert(head.last() == rlp_bytes(first@));
        assert(head.drop_last().len() == 0);
        assert(joined(head.drop_last()) == Seq::<u8>::empty());
        assert(joined(head) == joined(head.drop_last()) + head.last());
        assert(joined(head) =~= rlp_bytes(first@));
        assert(joined(items) == joined(head) + items.last());
    }
    stream_out(stream)
}

#[verifier::external_type_specification]
#[verifier::external_body]
pub struct ExDecoderError(rlp::DecoderError);

/// The encoded item at a place of an encoded list: `None` where the bytes
/// are no list, or the list has no such place, or the item is cut short.
pub uninterp spec fn rlp_item_at(bytes: Seq<u8>, index: nat) -> Option<Seq<u8>>;

/// What an encoded item holds behind its header: `None` where the header is
/// not well formed or says more than there is.
pub uninterp spec fn rlp_payload(bytes: Seq<u8>) -> Option<Seq<u8>>;

/// The encoded items of an encoded list, in order, as far as they can be read.
pub uninterp spec fn rlp_items(bytes: Seq<u8>) -> Seq<Seq<u8>>;

/// Calls `rlp::Rlp::at` on the bytes, and `Rlp::as_raw` on what it finds.
///
/// Not proved: that the result depends on the bytes and the place alone.
#[verifier::external_body]
pub(crate) fn item_at(bytes: &[u8], index: usize) -> (r: Result<Vec<u8>, rlp::DecoderError>)
    ensures
        match r {
            Ok(item) => rlp_item_at(bytes@, index as nat) == Some(item@),
            Err(_) => rlp_item_at(bytes@, index as nat).is_none(),
        },
{
    rlp::Rlp::new(bytes).at(index).map(|item| item.as_raw().to_vec())
}

/// Calls `rlp::Rlp::data` on the bytes.
///
/// Not proved: that the result depends on the bytes alone.
#[verifier::external_body]
pub(crate) fn payload(bytes: &[u8]) -> (r: Result<Vec<u8>, rlp::DecoderError>)
    ensures
        match r {
            Ok(data) => rlp_payload(bytes@) == Some(data@),
            Err(_) => rlp_payload(bytes@).is_none(),
        },
{
    rlp::Rlp::new(bytes).data().map(|data| data.to_vec())
}

/// Calls `rlp::Rlp::iter` on the bytes, and `Rlp::as_raw` on each item.
///
/// Not proved: that the result depends on the bytes alone.
#[verifier::external_body]
pub(crate) fn items(bytes: &[u8]) -> (r: Vec<Vec<u8>>)
    ensures
        r.deep_view() == rlp_items(bytes@),
{
    rlp::Rlp::new(bytes).iter().map(|item| item.as_raw().to_vec()).collect()
}

/// The encoding of the list of three items that are encoded already.
pub fn encode_raw_triple(first: &[u8], second: &[u8], third: &[u8]) -> (encoded: Vec<u8>)
    ensures
        encoded@ == rlp_list(first@ + second@ + third@),
{
    let mut stream = stream_new_list(3);
    stream_append_raw(&mut stream, first);
    stream_append_raw(&mut stream, second);
    stream_append_raw(&mut stream, third);
    proof {
        let items = stream_items(stream);
        let two = items.drop_last();
        let one = two.drop_last();
        assert(items.len() == 3);
        assert(items.last() == third@);
        assert(two =~= seq![first@, second@]);
        assert(two.last() == second@);
        assert(one =~= seq![first@]);
        assert(one.last() == first@);
        assert(one.drop_last().len() == 0);
        assert(joined(one.drop_last()) == Seq::<u8>::empty());
        assert(joined(one) == joined(one.drop_last()) + one.last());
        assert(joined(one) =~= first@);
        assert(joined(two) == joined(one) + two.last());
        assert(joined(items) == joined(two) + items.last());
    }
    stream_out(stream)
}

/// The encoding of the list of two items that are encoded already.
pub fn encode_raw_pair(first: &[u8], second: &[u8]) -> (encoded: Vec<u8>)
    ensures
        encoded@ == rlp_list(first@ + second@),
{
    let mut stream = stream_new_list(2);
    stream_append_raw(&mut stream, first);
    stream_append_raw(&mut stream, second);
    proof {
        let items = stream_items(stream);
        let one = items.drop_last();
        assert(items.len() == 2);
        assert(items.last() == second@);
        assert(one =~= seq![first@]);
        assert(one.last() == first@);
        assert(one.drop_last().len() == 0);
        assert(joined(one.drop_last()) == Seq::<u8>::empty());
        assert(joined(one) == joined(one.drop_last()) + one.last());
        assert(joined(one) =~= first@);
        assert(joined(items) == joined(one) + items.last());
    }
    stream_out(stream)
}

} // verus!
