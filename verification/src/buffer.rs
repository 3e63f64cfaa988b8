//! The byte buffers and the errors that the two halves of a stream hold.

use vstd::prelude::*;

verus! {

/// `bytes::BytesMut`, a growable buffer that bytes leave from the front.
#[verifier::external_type_specification]
#[verifier::external_body]
pub struct ExBytesMut(bytes::BytesMut);

/// `std::io::Error`, which is handed on as it is.
#[verifier::external_type_specification]
#[verifier::external_body]
pub struct ExIoError(std::io::Error);

/// The bytes that a buffer holds, the next one to leave first.
pub uninterp spec fn buffered(buffer: bytes::BytesMut) -> Seq<u8>;

/// A buffer of `len` bytes can take `more` of them: the room that it then asks for, which may be
/// twice what it needs, can be had in one piece.
pub open spec fn has_room_for(len: nat, more: nat) -> bool {
    len + more <= isize::MAX / 2
}

/// `BytesMut::new` makes an empty buffer.
pub assume_specification[ bytes::BytesMut::new ]() -> (buffer: bytes::BytesMut)
    ensures
        buffered(buffer) == Seq::<u8>::empty(),
;

/// `BytesMut::len` is the number of bytes held.
pub assume_specification[ bytes::BytesMut::len ](buffer: &bytes::BytesMut) -> (len: usize)
    ensures
        len == buffered(*buffer).len(),
;

/// `BytesMut::is_empty` tells whether no byte is held.
pub assume_specification[ bytes::BytesMut::is_empty ](buffer: &bytes::BytesMut) -> (empty: bool)
    ensures
        empty == (buffered(*buffer).len() == 0),
;

/// `BytesMut::extend_from_slice` appends. It panics where the room that it asks for is more than
/// one piece of memory can have.
pub assume_specification[ bytes::BytesMut::extend_from_slice ](
    buffer: &mut bytes::BytesMut,
    extend: &[u8],
)
    requires
        has_room_for(buffered(*old(buffer)).len(), extend@.len()),
    ensures
        buffered(*final(buffer)) == buffered(*old(buffer)) + extend@,
;

/// `BytesMut::split` moves everything into a new buffer.
pub assume_specification[ bytes::BytesMut::split ](buffer: &mut bytes::BytesMut) -> (taken:
    bytes::BytesMut)
    ensures
        buffered(taken) == buffered(*old(buffer)),
        buffered(*final(buffer)) == Seq::<u8>::empty(),
;

/// Calls the `advance` of `bytes::Buf`, which drops bytes from the front. It panics where there
/// are fewer of them.
#[verifier::external_body]
pub(crate) fn advance(buffer: &mut bytes::BytesMut, count: usize)
    requires
        count <= buffered(*old(buffer)).len(),
    ensures
        buffered(*final(buffer)) == buffered(*old(buffer)).skip(count as int),
{
    bytes::Buf::advance(buffer, count)
}

/// Calls the `as_ref` of `BytesMut`, which shows the bytes held.
#[verifier::external_body]
pub(crate) fn as_slice(buffer: &bytes::BytesMut) -> (slice: &[u8])
    ensures
        slice@ == buffered(*buffer),
{
    buffer.as_ref()
}

/// Whether a buffer can take `more` bytes.
pub fn has_room(buffer: &bytes::BytesMut, more: usize) -> (has_room: bool)
    ensures
        has_room == has_room_for(buffered(*buffer).len(), more as nat),
{
    let limit: usize = (isize::MAX / 2) as usize;
    let len: usize = buffer.len();
    len <= limit && more <= limit - len
}

/// A buffer can take more bytes exactly where one piece of memory can have twice what it then holds.
/// It does not matter how the bytes are parted.
pub proof fn law_room(len: nat, more: nat, other_len: nat, other_more: nat)
    requires
        len + more == other_len + other_more,
    ensures
        has_room_for(len, more) <==> 2 * (len + more) <= isize::MAX,
        has_room_for(len, more) == has_room_for(other_len, other_more),
{
}

} // verus!
