//! The byte buffer that framed transports read from and write to: the
//! `bytes` crate's `BytesMut`, with its contents named.
use crate::endian::{le32, le32_bytes};
use bytes::{Buf, BufMut, BytesMut};
use vstd::prelude::*;

verus! {

#[verifier::external_type_specification]
#[verifier::external_body]
pub struct ExBytesMut(BytesMut);

/// The bytes a `BytesMut` holds, first to last.
pub uninterp spec fn buffer_contents(b: BytesMut) -> Seq<u8>;

/// Trusted: `BytesMut::len`, the number of bytes held.
#[verifier::external_body]
pub(crate) fn buffer_len(b: &BytesMut) -> (r: usize)
    ensures
        r == buffer_contents(*b).len(),
{
    b.len()
}

/// Trusted: `Buf::get_u32_le` on `BytesMut`, which reads the first four bytes
/// as a little-endian number and advances past them; it panics on fewer than
/// four bytes, which `requires` leaves out.
#[verifier::external_body]
pub(crate) fn buffer_get_u32_le(b: &mut BytesMut) -> (r: u32)
    requires
        buffer_contents(*old(b)).len() >= 4,
    ensures
        r == le32(buffer_contents(*old(b)).take(4)),
        buffer_contents(*final(b)) == buffer_contents(*old(b)).skip(4),
{
    b.get_u32_le()
}

/// Trusted: `BytesMut::split_to` followed by copying the split-off part into
/// a `Vec`: the first `at` bytes are returned and removed. `split_to` panics
/// when `at` exceeds the length, which `requires` leaves out.
#[verifier::external_body]
pub(crate) fn buffer_split_to_vec(b: &mut BytesMut, at: usize) -> (r: Vec<u8>)
    requires
        at <= buffer_contents(*old(b)).len(),
    ensures
        r@ == buffer_contents(*old(b)).take(at as int),
        buffer_contents(*final(b)) == buffer_contents(*old(b)).skip(at as int),
{
    b.split_to(at).to_vec()
}

/// Trusted: `BytesMut::reserve`, which only grows the capacity. It panics
/// when the capacity would overflow, which `requires` leaves out.
#[verifier::external_body]
pub(crate) fn buffer_reserve(b: &mut BytesMut, additional: usize)
    requires
        buffer_contents(*old(b)).len() + additional <= isize::MAX,
    ensures
        buffer_contents(*final(b)) == buffer_contents(*old(b)),
{
    b.reserve(additional)
}

/// Trusted: `BufMut::put_u32_le` on `BytesMut`, which appends the number's
/// four little-endian bytes (growing the buffer as needed).
#[verifier::external_body]
pub(crate) fn buffer_put_u32_le(b: &mut BytesMut, x: u32)
    requires
        buffer_contents(*old(b)).len() + 4 <= isize::MAX,
    ensures
        buffer_contents(*final(b)) == buffer_contents(*old(b)) + le32_bytes(x),
{
    b.put_u32_le(x)
}

/// Trusted: `BytesMut::extend_from_slice`, which appends the slice.
#[verifier::external_body]
pub(crate) fn buffer_extend_from_slice(b: &mut BytesMut, s: &[u8])
    requires
        buffer_contents(*old(b)).len() + s@.len() <= isize::MAX,
    ensures
        buffer_contents(*final(b)) == buffer_contents(*old(b)) + s@,
{
    b.extend_from_slice(s)
}

} // verus!
