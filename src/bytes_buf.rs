//! The accumulation buffer and the immutable byte sequences of the `bytes` crate,
//! seen through the bytes they hold.
use bytes::{Bytes, BytesMut};
use vstd::prelude::*;

verus! {

#[verifier::external_type_specification]
#[verifier::external_body]
pub struct ExBytes(Bytes);

#[verifier::external_type_specification]
#[verifier::external_body]
pub struct ExBytesMut(BytesMut);

/// The bytes that an immutable byte sequence holds.
pub uninterp spec fn bytes_of(b: Bytes) -> Seq<u8>;

/// The bytes that a growable buffer holds.
pub uninterp spec fn buffer_of(b: BytesMut) -> Seq<u8>;

/// Relies on `BytesMut::with_capacity`: a new buffer is empty.
#[verifier::external_body]
pub(crate) fn buffer_with_capacity(capacity: usize) -> (r: BytesMut)
    ensures
        buffer_of(r) == Seq::<u8>::empty(),
{
    BytesMut::with_capacity(capacity)
}

/// Relies on `BytesMut::len`: the number of bytes held.
#[verifier::external_body]
pub(crate) fn buffer_len(b: &BytesMut) -> (r: usize)
    ensures
        r == buffer_of(*b).len(),
{
    b.len()
}

/// Relies on `Bytes::len`: the number of bytes held.
#[verifier::external_body]
pub(crate) fn bytes_len(b: &Bytes) -> (r: usize)
    ensures
        r == bytes_of(*b).len(),
{
    b.len()
}

/// Relies on `BytesMut::extend_from_slice`: the chunk is appended at the end.
#[verifier::external_body]
pub(crate) fn buffer_append(b: &mut BytesMut, chunk: &Bytes)
    ensures
        buffer_of(*final(b)) == buffer_of(*old(b)) + bytes_of(*chunk),
{
    b.extend_from_slice(chunk.as_ref())
}

/// Relies on `BytesMut::split` and `BytesMut::freeze`: everything the buffer
/// held moves, uncopied, into the immutable result, and the buffer is left empty.
#[verifier::external_body]
pub(crate) fn buffer_take_frozen(b: &mut BytesMut) -> (r: Bytes)
    ensures
        bytes_of(r) == buffer_of(*old(b)),
        buffer_of(*final(b)) == Seq::<u8>::empty(),
{
    b.split().freeze()
}

} // verus!
