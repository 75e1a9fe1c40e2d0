//! Byte buffers of the `bytes` crate, in which HCI packets are put together.

use bytes::{BufMut, BytesMut};
use vstd::prelude::*;

verus! {

/// `bytes::BytesMut`, seen through `buffer_contents` and `buffer_limit` only.
#[verifier::external_type_specification]
#[verifier::external_body]
pub struct ExBytesMut(BytesMut);

/// The bytes that have been put into a buffer, in order.
pub uninterp spec fn buffer_contents(buf: BytesMut) -> Seq<u8>;

/// The capacity that a buffer was made with: it takes at least that many bytes.
pub uninterp spec fn buffer_limit(buf: BytesMut) -> nat;

/// The two bytes of `n`, the low one first.
pub open spec fn le_u16(n: u16) -> Seq<u8> {
    seq![(n % 256) as u8, (n / 256) as u8]
}

/// The four bytes of `n`, the lowest first.
pub open spec fn le_u32(n: u32) -> Seq<u8> {
    seq![
        (n % 256) as u8,
        (n / 256 % 256) as u8,
        (n / 65536 % 256) as u8,
        (n / 16777216) as u8,
    ]
}

/// The two bytes of a number are its digits in base 256, the low one first.
pub proof fn law_le_u16_digits(n: u16)
    ensures
        le_u16(n).len() == 2,
        le_u16(n)[0] + 0x100 * le_u16(n)[1] == n,
{
}

/// The four bytes of a number are its digits in base 256, the lowest first.
pub proof fn law_le_u32_digits(n: u32)
    ensures
        le_u32(n).len() == 4,
        le_u32(n)[0] + 0x100 * le_u32(n)[1] + 0x1_0000 * le_u32(n)[2] + 0x100_0000 * le_u32(n)[3]
            == n,
{
}

/// The longest vector that `put_slice` is asked to make. A vector may double its
/// allocation when it grows, and no allocation may exceed `isize::MAX` bytes.
pub open spec fn vec_limit() -> int {
    usize::MAX / 4 - 64
}

/// The limit is 64 below a quarter of the largest size, rounded down, so a vector of
/// that length may still double.
pub proof fn law_vec_limit()
    ensures
        4 * (vec_limit() + 64) <= usize::MAX < 4 * (vec_limit() + 65),
        vec_limit() >= 0,
        2 * vec_limit() <= isize::MAX,
{
}

/// `BytesMut::with_capacity`: an empty buffer that takes at least `capacity` bytes.
#[verifier::external_body]
pub(crate) fn with_capacity(capacity: usize) -> (buf: BytesMut)
    requires
        capacity <= isize::MAX,
    ensures
        buffer_contents(buf) == Seq::<u8>::empty(),
        buffer_limit(buf) == capacity,
{
    BytesMut::with_capacity(capacity)
}

/// `BufMut::put_u8` on a `BytesMut`: appends `n`. The call panics on a full buffer,
/// so the byte has to fit below the buffer's limit.
#[verifier::external_body]
pub(crate) fn put_u8(buf: &mut BytesMut, n: u8)
    requires
        buffer_contents(*old(buf)).len() + 1 <= buffer_limit(*old(buf)),
    ensures
        buffer_contents(*final(buf)) == buffer_contents(*old(buf)).push(n),
        buffer_limit(*final(buf)) == buffer_limit(*old(buf)),
{
    buf.put_u8(n)
}

/// `BufMut::put_u16_le` on a `BytesMut`: appends the two bytes of `n`, the low one
/// first. The call panics on a full buffer, so both have to fit below the limit.
#[verifier::external_body]
pub(crate) fn put_u16_le(buf: &mut BytesMut, n: u16)
    requires
        buffer_contents(*old(buf)).len() + 2 <= buffer_limit(*old(buf)),
    ensures
        buffer_contents(*final(buf)) == buffer_contents(*old(buf)) + le_u16(n),
        buffer_limit(*final(buf)) == buffer_limit(*old(buf)),
{
    buf.put_u16_le(n)
}

/// `BufMut::put_u32_le` on a `BytesMut`: appends the four bytes of `n`, the lowest
/// first. The call panics on a full buffer, so all four have to fit below the limit.
#[verifier::external_body]
pub(crate) fn put_u32_le(buf: &mut BytesMut, n: u32)
    requires
        buffer_contents(*old(buf)).len() + 4 <= buffer_limit(*old(buf)),
    ensures
        buffer_contents(*final(buf)) == buffer_contents(*old(buf)) + le_u32(n),
        buffer_limit(*final(buf)) == buffer_limit(*old(buf)),
{
    buf.put_u32_le(n)
}

/// `BufMut::put_slice` on a `BytesMut`: appends `src`. The call panics on a full
/// buffer, so all of `src` has to fit below the limit.
#[verifier::external_body]
pub(crate) fn put_bytes(buf: &mut BytesMut, src: &[u8])
    requires
        buffer_contents(*old(buf)).len() + src@.len() <= buffer_limit(*old(buf)),
    ensures
        buffer_contents(*final(buf)) == buffer_contents(*old(buf)) + src@,
        buffer_limit(*final(buf)) == buffer_limit(*old(buf)),
{
    buf.put_slice(src)
}

/// `BytesMut::as_ref`: the bytes of the buffer as a slice.
#[verifier::external_body]
pub(crate) fn as_slice(buf: &BytesMut) -> (bytes: &[u8])
    ensures
        bytes@ == buffer_contents(*buf),
{
    buf.as_ref()
}

/// `BufMut::put_slice` on a `Vec<u8>`: appends `src`. The vector grows as it needs
/// to, and the call panics where it cannot, so the result has to stay below
/// `vec_limit`.
#[verifier::external_body]
pub(crate) fn put_slice(buf: &mut Vec<u8>, src: &[u8])
    requires
        old(buf)@.len() + src@.len() <= vec_limit(),
    ensures
        final(buf)@ == old(buf)@ + src@,
{
    buf.put_slice(src)
}

} // verus!
