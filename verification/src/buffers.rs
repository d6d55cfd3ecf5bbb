//! Byte buffers of the `bytes` crate.
use bytes::{Bytes, BytesMut};
use vstd::prelude::*;

verus! {

/// A cheaply cloneable byte buffer, `bytes::Bytes`.
#[verifier::external_type_specification]
#[verifier::external_body]
pub struct ExBytes(bytes::Bytes);

/// A growable byte buffer, `bytes::BytesMut`.
#[verifier::external_type_specification]
#[verifier::external_body]
pub struct ExBytesMut(bytes::BytesMut);

/// The bytes that a [`Bytes`] holds.
pub uninterp spec fn bytes_contents(bytes: Bytes) -> Seq<u8>;

/// The bytes that a [`BytesMut`] holds.
pub uninterp spec fn buffer_contents(buffer: BytesMut) -> Seq<u8>;

/// `Bytes::len` returns the number of bytes held.
pub assume_specification[ Bytes::len ](bytes: &Bytes) -> (len: usize)
    ensures
        len == bytes_contents(*bytes).len(),
;

/// `Bytes::new` makes a buffer that holds nothing.
#[verifier::external_body]
pub(crate) fn no_bytes() -> (bytes: Bytes)
    ensures
        bytes_contents(bytes) == Seq::<u8>::empty(),
{
    Bytes::new()
}

/// `Bytes::slice` returns a buffer that holds the bytes of the range. It
/// panics where the range is not within the buffer.
#[verifier::external_body]
pub(crate) fn slice_bytes(bytes: &Bytes, from: usize, to: usize) -> (slice: Bytes)
    requires
        from <= to <= bytes_contents(*bytes).len(),
    ensures
        bytes_contents(slice) == bytes_contents(*bytes).subrange(from as int, to as int),
{
    bytes.slice(from..to)
}

/// `BytesMut::with_capacity` makes a buffer that holds nothing. It panics where
/// the memory is more than an allocation can be.
pub assume_specification[ BytesMut::with_capacity ](capacity: usize) -> (buffer: BytesMut)
    requires
        capacity <= 0x4000_0000,
    ensures
        buffer_contents(buffer) == Seq::<u8>::empty(),
;

/// `BytesMut::extend_from_slice` adds bytes at the end. It panics where the
/// memory is more than an allocation can be.
pub assume_specification[ BytesMut::extend_from_slice ](buffer: &mut BytesMut, extend: &[u8])
    requires
        buffer_contents(*old(buffer)).len() + extend@.len() <= 0x4000_0000,
    ensures
        buffer_contents(*final(buffer)) == buffer_contents(*old(buffer)) + extend@,
;

/// `BytesMut::len` returns the number of bytes held.
pub assume_specification[ BytesMut::len ](buffer: &BytesMut) -> (len: usize)
    ensures
        len == buffer_contents(*buffer).len(),
;

/// `BytesMut::split_to` takes the first `at` bytes out of the buffer. It
/// panics where the buffer holds fewer.
pub assume_specification[ BytesMut::split_to ](buffer: &mut BytesMut, at: usize) -> (front:
    BytesMut)
    requires
        at <= buffer_contents(*old(buffer)).len(),
    ensures
        buffer_contents(front) == buffer_contents(*old(buffer)).take(at as int),
        buffer_contents(*final(buffer)) == buffer_contents(*old(buffer)).skip(at as int),
;

/// `BytesMut::freeze` keeps the bytes held.
pub assume_specification[ BytesMut::freeze ](buffer: BytesMut) -> (bytes: Bytes)
    ensures
        bytes_contents(bytes) == buffer_contents(buffer),
;

} // verus!
