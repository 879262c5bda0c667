//! Trusted declarations for the growable byte buffer of the `bytes` crate,
//! the buffer that framed readers and writers hand to a codec.

use vstd::prelude::*;
use bytes::BufMut;

verus! {

#[verifier::external_type_specification]
#[verifier::external_body]
pub struct ExBytesMut(bytes::BytesMut);

#[verifier::external_type_specification]
#[verifier::external_body]
pub struct ExIoError(std::io::Error);

/// The bytes that a `BytesMut` currently holds, in order.
pub uninterp spec fn buffered(buf: bytes::BytesMut) -> Seq<u8>;

/// Calls `BufMut::put_slice` on a `BytesMut`, which appends `src` at the
/// end of the buffer (it forwards to `extend_from_slice`, growing the
/// buffer first when needed). The growth panics only when the new length
/// overflows; the allocation limit of `isize::MAX` bytes keeps that out.
#[verifier::external_body]
pub(crate) fn put_slice(dst: &mut bytes::BytesMut, src: &[u8])
    requires
        buffered(*old(dst)).len() + src@.len() <= isize::MAX,
    ensures
        buffered(*final(dst)) == buffered(*old(dst)) + src@,
{
    dst.put_slice(src);
}

/// Copies the bytes of a `BytesMut` (through its `Deref` to `[u8]`) into
/// a fresh vector; the buffer itself is unchanged.
#[verifier::external_body]
pub(crate) fn copy_out(src: &bytes::BytesMut) -> (v: Vec<u8>)
    ensures
        v@ == buffered(*src),
{
    src.to_vec()
}

/// Calls `BytesMut::clear`, which sets the length to zero.
#[verifier::external_body]
pub(crate) fn clear(buf: &mut bytes::BytesMut)
    ensures
        buffered(*final(buf)) == Seq::<u8>::empty(),
{
    buf.clear();
}

} // verus!
