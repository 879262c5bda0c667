//! The codec of tunnelled TCP streams: every chunk of bytes that arrives is
//! one frame, and a frame is written out as its bytes, with no header.

use vstd::prelude::*;
use bytes::BytesMut;
use crate::buffer::{buffered, put_slice, copy_out, clear};

verus! {

/// What the encoder leaves in a buffer that held `buf` once it has
/// written `item`.
pub open spec fn encoded(buf: Seq<u8>, item: Seq<u8>) -> Seq<u8> {
    buf + item
}

/// The frame that the decoder takes out of a buffer holding `buf`:
/// everything it holds, or nothing when it is empty.
pub open spec fn decoded(buf: Seq<u8>) -> Option<Seq<u8>> {
    if buf.len() == 0 {
        None
    } else {
        Some(buf)
    }
}

/// Codec of the tunnel client: a frame is whatever bytes are buffered.
pub struct TcpCodec {}

impl TcpCodec {
    /// Appends the bytes of `item` to `dst`. Never fails.
    pub fn encode(&mut self, item: Vec<u8>, dst: &mut BytesMut) -> (r: Result<(), std::io::Error>)
        requires
            buffered(*old(dst)).len() + item@.len() <= isize::MAX,
        ensures
            r is Ok,
            buffered(*final(dst)) == encoded(buffered(*old(dst)), item@),
    {
        put_slice(dst, item.as_slice());
        Ok(())
    }

    /// Takes every buffered byte out of `src` as one frame, leaving `src`
    /// empty; `None` when nothing was buffered. Never fails.
    pub fn decode(&mut self, src: &mut BytesMut) -> (r: Result<Option<Vec<u8>>, std::io::Error>)
        ensures
            buffered(*final(src)) == Seq::<u8>::empty(),
            r matches Ok(frame) && (match frame {
                Some(v) => decoded(buffered(*old(src))) == Some(v@),
                None => decoded(buffered(*old(src))) is None,
            }),
    {
        let buffer = copy_out(src);
        clear(src);
        if buffer.len() == 0 {
            Ok(None)
        } else {
            Ok(Some(buffer))
        }
    }
}

/// Codec of the relay server's public TCP connections. Its decoder copies
/// the buffered bytes out as a frame and leaves them in the buffer.
pub struct RelayCodec {}

impl RelayCodec {
    /// Appends the bytes of `item` to `dst`. Never fails.
    pub fn encode(&mut self, item: Vec<u8>, dst: &mut BytesMut) -> (r: Result<(), std::io::Error>)
        requires
            buffered(*old(dst)).len() + item@.len() <= isize::MAX,
        ensures
            r is Ok,
            buffered(*final(dst)) == encoded(buffered(*old(dst)), item@),
    {
        put_slice(dst, item.as_slice());
        Ok(())
    }

    /// A copy of every buffered byte of `src` as one frame, `None` when
    /// nothing is buffered; `src` keeps its bytes. Never fails.
    pub fn decode(&mut self, src: &mut BytesMut) -> (r: Result<Option<Vec<u8>>, std::io::Error>)
        ensures
            buffered(*final(src)) == buffered(*old(src)),
            r matches Ok(frame) && (match frame {
                Some(v) => decoded(buffered(*old(src))) == Some(v@),
                None => decoded(buffered(*old(src))) is None,
            }),
    {
        let buffer = copy_out(src);
        if buffer.len() == 0 {
            Ok(None)
        } else {
            Ok(Some(buffer))
        }
    }
}

/// What a decoder reads back of one write: the item encoded into an empty
/// buffer comes back whole as one frame, unless the item is empty, which
/// gives no frame.
pub proof fn lemma_decode_after_encode(item: Seq<u8>)
    ensures
        decoded(encoded(Seq::<u8>::empty(), item)) == (if item.len() == 0 {
            None
        } else {
            Some(item)
        }),
{
    assert(encoded(Seq::<u8>::empty(), item) =~= item);
}

/// Writes that pile up before a read come back as one frame: the bytes of
/// every item in the order they were written.
pub proof fn lemma_writes_merge(first: Seq<u8>, second: Seq<u8>)
    requires
        first.len() + second.len() > 0,
    ensures
        decoded(encoded(encoded(Seq::<u8>::empty(), first), second)) == Some(first + second),
{
    assert(encoded(encoded(Seq::<u8>::empty(), first), second) =~= first + second);
}

/// Two writes in a row leave the buffer as one write of both items would:
/// the old bytes, then `first`, then `second`. Within `encode`'s
/// precondition (the buffer stays within `isize::MAX` bytes) each of the
/// three writes is allowed.
pub proof fn lemma_two_encodes_are_one(buf: Seq<u8>, first: Seq<u8>, second: Seq<u8>)
    requires
        buf.len() + first.len() + second.len() <= isize::MAX,
    ensures
        buf.len() + first.len() <= isize::MAX,
        encoded(buf, first).len() + second.len() <= isize::MAX,
        buf.len() + (first + second).len() <= isize::MAX,
        encoded(encoded(buf, first), second) == encoded(buf, first + second),
{
    assert(encoded(encoded(buf, first), second) =~= encoded(buf, first + second));
}

/// Once the client's decoder has taken a frame, the next read finds none,
/// since the buffer it leaves is empty.
pub proof fn lemma_client_decode_drains()
    ensures
        decoded(Seq::<u8>::empty()) is None,
{
}

} // verus!
