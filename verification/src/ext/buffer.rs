//! Byte buffers: `bytes::Bytes`, and the `bytes::BufMut` writers of a `Vec<u8>`.

use vstd::prelude::*;

use bytes::{BufMut, Bytes};

use crate::le;

verus! {

/// A reference-counted, immutable run of bytes.
#[verifier::external_type_specification]
#[verifier::external_body]
pub struct ExBytes(Bytes);

/// The bytes that a `Bytes` holds, in order.
pub uninterp spec fn frame_bytes(frame: Bytes) -> Seq<u8>;

/// `Bytes::from(Vec<u8>)`: the vector's bytes, unchanged.
#[verifier::external_body]
pub(crate) fn freeze(buf: Vec<u8>) -> (frame: Bytes)
    ensures
        frame_bytes(frame) == buf@,
{
    Bytes::from(buf)
}

/// `BufMut::put_u8` on a vector: appends the byte.
#[verifier::external_body]
pub(crate) fn put_u8(buf: &mut Vec<u8>, n: u8)
    requires
        old(buf)@.len() + 1 <= isize::MAX,
    ensures
        final(buf)@ == old(buf)@.push(n),
{
    buf.put_u8(n)
}

/// `BufMut::put_u16_le` on a vector: appends the number's two bytes, lowest first.
#[verifier::external_body]
pub(crate) fn put_u16_le(buf: &mut Vec<u8>, n: u16)
    requires
        old(buf)@.len() + 2 <= isize::MAX,
    ensures
        final(buf)@ == old(buf)@ + le::le_bytes(n as nat, 2),
{
    buf.put_u16_le(n)
}

/// `BufMut::put_u32_le` on a vector: appends the number's four bytes, lowest first.
#[verifier::external_body]
pub(crate) fn put_u32_le(buf: &mut Vec<u8>, n: u32)
    requires
        old(buf)@.len() + 4 <= isize::MAX,
    ensures
        final(buf)@ == old(buf)@ + le::le_bytes(n as nat, 4),
{
    buf.put_u32_le(n)
}

/// `BufMut::put_u64_le` on a vector: appends the number's eight bytes, lowest first.
#[verifier::external_body]
pub(crate) fn put_u64_le(buf: &mut Vec<u8>, n: u64)
    requires
        old(buf)@.len() + 8 <= isize::MAX,
    ensures
        final(buf)@ == old(buf)@ + le::le_bytes(n as nat, 8),
{
    buf.put_u64_le(n)
}

/// `BufMut::put_slice` on a vector: appends the slice.
#[verifier::external_body]
pub(crate) fn put_slice(buf: &mut Vec<u8>, src: &[u8])
    requires
        old(buf)@.len() + src@.len() <= isize::MAX,
    ensures
        final(buf)@ == old(buf)@ + src@,
{
    buf.put_slice(src)
}

} // verus!
