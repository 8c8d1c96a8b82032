//! The byte buffer that frames travel in, and what this library relies on
//! of it. Writes into it do not grow it: a write needs room left within
//! the buffer's capacity.

use vstd::prelude::*;

verus! {

#[verifier::external_type_specification]
#[verifier::external_body]
pub struct ExBytesMut(bytes::BytesMut);

/// The bytes that a `BytesMut` holds, in order.
pub uninterp spec fn buffer_contents(buffer: bytes::BytesMut) -> Seq<u8>;

/// How many bytes a `BytesMut` can hold without growing: the capacity it
/// was made with (`BytesMut::capacity`).
pub uninterp spec fn buffer_capacity(buffer: bytes::BytesMut) -> nat;

/// How many more bytes fit in the buffer without growing it.
pub open spec fn buffer_room(buffer: bytes::BytesMut) -> int {
    buffer_capacity(buffer) - buffer_contents(buffer).len()
}

/// `<bytes::BytesMut as BufMut>::remaining_mut`: the capacity minus the
/// length. Claimed: it is the buffer's room, which is never negative.
#[verifier::external_body]
pub(crate) fn buffer_remaining(buffer: &bytes::BytesMut) -> (room: usize)
    ensures
        room == buffer_room(*buffer),
{
    bytes::BufMut::remaining_mut(buffer)
}

/// `<bytes::BytesMut as BufMut>::put` of a byte slice: asserts that the
/// slice fits in the room left (and panics otherwise, so that input is left
/// out), then copies it after the current contents without reallocating.
/// Claimed: the new contents are the old contents followed by `data`, and
/// the capacity is unchanged.
#[verifier::external_body]
pub(crate) fn buffer_put(buffer: &mut bytes::BytesMut, data: &[u8])
    requires
        data@.len() <= buffer_room(*old(buffer)),
    ensures
        buffer_contents(*final(buffer)) == buffer_contents(*old(buffer)) + data@,
        buffer_capacity(*final(buffer)) == buffer_capacity(*old(buffer)),
{
    bytes::BufMut::put(buffer, data)
}

} // verus!
