//! The framing of the byte stream: each frame is a length of four bytes, most
//! significant first, and then that many bytes of body.

use byteorder::{BigEndian, ByteOrder};
use vstd::prelude::*;

verus! {

/// The four bytes of `n`, most significant first.
pub open spec fn be32(n: u32) -> Seq<u8> {
    seq![
        (n / 0x100_0000) as u8,
        (n / 0x1_0000 % 0x100) as u8,
        (n / 0x100 % 0x100) as u8,
        (n % 0x100) as u8,
    ]
}

/// The number that the first four bytes of `bytes` spell, most significant
/// first.
pub open spec fn be32_value(bytes: Seq<u8>) -> int
    recommends
        bytes.len() >= 4,
{
    bytes[0] * 0x100_0000 + bytes[1] * 0x1_0000 + bytes[2] * 0x100 + bytes[3]
}

/// A body as it goes on the wire: its length, taken modulo 2^32, and then the
/// body itself.
pub open spec fn frame(body: Seq<u8>) -> Seq<u8> {
    be32((body.len() % 0x1_0000_0000) as u32) + body
}

/// The bodies of `bodies` as they go on the wire, one after the other.
pub open spec fn framed(bodies: Seq<Seq<u8>>) -> Seq<u8>
    decreases bodies.len(),
{
    if bodies.len() == 0 {
        Seq::empty()
    } else {
        frame(bodies[0]) + framed(bodies.skip(1))
    }
}

/// Whether `stream` begins with a whole frame.
pub open spec fn has_frame(stream: Seq<u8>) -> bool {
    stream.len() >= 4 && stream.len() - 4 >= be32_value(stream)
}

/// The body of the frame that `stream` begins with.
pub open spec fn first_body(stream: Seq<u8>) -> Seq<u8>
    recommends
        has_frame(stream),
{
    stream.subrange(4, 4 + be32_value(stream))
}

/// What follows the frame that `stream` begins with.
pub open spec fn after_first(stream: Seq<u8>) -> Seq<u8>
    recommends
        has_frame(stream),
{
    stream.skip(4 + be32_value(stream))
}

/// The bodies of the whole frames in `stream`, in order.
pub open spec fn frames(stream: Seq<u8>) -> Seq<Seq<u8>>
    decreases stream.len(),
{
    if has_frame(stream) {
        seq![first_body(stream)] + frames(after_first(stream))
    } else {
        Seq::empty()
    }
}

/// What is left of `stream` after its whole frames: the beginning of a frame
/// that is not all there yet.
pub open spec fn unread(stream: Seq<u8>) -> Seq<u8>
    decreases stream.len(),
{
    if has_frame(stream) {
        unread(after_first(stream))
    } else {
        stream
    }
}

/// What a reader has when it is handed `chunks` one after the other, starting
/// with `pending` left over: the bodies it gives out, and what is left over
/// at the end.
pub open spec fn fed(pending: Seq<u8>, chunks: Seq<Seq<u8>>) -> (Seq<Seq<u8>>, Seq<u8>)
    decreases chunks.len(),
{
    if chunks.len() == 0 {
        (Seq::empty(), pending)
    } else {
        let stream = pending + chunks[0];
        let later = fed(unread(stream), chunks.skip(1));
        (frames(stream) + later.0, later.1)
    }
}

/// `chunks` laid end to end.
pub open spec fn joined(chunks: Seq<Seq<u8>>) -> Seq<u8>
    decreases chunks.len(),
{
    if chunks.len() == 0 {
        Seq::empty()
    } else {
        chunks[0] + joined(chunks.skip(1))
    }
}

/// Four bytes spell a number that fits in 32 bits, and that number is
/// written as the same four bytes.
pub proof fn lemma_be32_of_value(bytes: Seq<u8>)
    requires
        bytes.len() >= 4,
    ensures
        0 <= be32_value(bytes) <= u32::MAX,
        be32(be32_value(bytes) as u32) == bytes.take(4),
{
    let value = be32_value(bytes);
    assert(value / 0x100_0000 == bytes[0]);
    assert(value / 0x1_0000 % 0x100 == bytes[1]);
    assert(value / 0x100 % 0x100 == bytes[2]);
    assert(value % 0x100 == bytes[3]);
    assert(be32(value as u32) =~= bytes.take(4));
}

/// The four bytes of a number spell that number.
pub proof fn lemma_value_of_be32(n: u32)
    ensures
        be32(n).len() == 4,
        be32_value(be32(n)) == n,
{
}

/// What follows a number's four bytes has no part in what they spell.
pub proof fn lemma_value_of_prefix(head: Seq<u8>, rest: Seq<u8>)
    requires
        head.len() >= 4,
    ensures
        be32_value(head + rest) == be32_value(head),
{
    assert((head + rest)[0] == head[0]);
    assert((head + rest)[1] == head[1]);
    assert((head + rest)[2] == head[2]);
    assert((head + rest)[3] == head[3]);
}

/// The frames of a stream that goes on: those of its beginning, and then
/// those of what the beginning left unread together with the rest.
pub proof fn lemma_frames_go_on(begin: Seq<u8>, rest: Seq<u8>)
    ensures
        frames(begin + rest) == frames(begin) + frames(unread(begin) + rest),
        unread(begin + rest) == unread(unread(begin) + rest),
    decreases begin.len(),
{
    if has_frame(begin) {
        lemma_value_of_prefix(begin, rest);
        let n = be32_value(begin);
        assert(first_body(begin + rest) == first_body(begin));
        assert(after_first(begin + rest) == after_first(begin) + rest);
        lemma_frames_go_on(after_first(begin), rest);
        assert(frames(begin + rest) == seq![first_body(begin)] + (frames(after_first(begin))
            + frames(unread(after_first(begin)) + rest)));
        assert(seq![first_body(begin)] + (frames(after_first(begin)) + frames(
            unread(after_first(begin)) + rest,
        )) == (seq![first_body(begin)] + frames(after_first(begin))) + frames(
            unread(after_first(begin)) + rest,
        ));
    } else {
        assert(frames(begin) + frames(begin + rest) == frames(begin + rest));
    }
}

/// What a stream leaves unread does not begin with a whole frame.
pub proof fn lemma_unread_has_no_frame(stream: Seq<u8>)
    ensures
        !has_frame(unread(stream)),
    decreases stream.len(),
{
    if has_frame(stream) {
        lemma_unread_has_no_frame(after_first(stream));
    }
}

/// However a stream is cut into chunks, a reader that is handed the chunks in
/// order gives out the frames of the whole stream, and keeps what the whole
/// stream leaves unread.
pub proof fn lemma_chunks_do_not_matter(pending: Seq<u8>, chunks: Seq<Seq<u8>>)
    requires
        !has_frame(pending),
    ensures
        fed(pending, chunks) == (
            frames(pending + joined(chunks)),
            unread(pending + joined(chunks)),
        ),
    decreases chunks.len(),
{
    if chunks.len() == 0 {
        assert(pending + joined(chunks) == pending);
    } else {
        let stream = pending + chunks[0];
        let rest = joined(chunks.skip(1));
        lemma_unread_has_no_frame(stream);
        lemma_chunks_do_not_matter(unread(stream), chunks.skip(1));
        lemma_frames_go_on(stream, rest);
        assert(pending + joined(chunks) == stream + rest);
    }
}

/// What was written as frames is read as the bodies that were written, with
/// nothing left over, where each body has a length that fits in 32 bits.
pub proof fn lemma_framed_is_read_back(bodies: Seq<Seq<u8>>)
    requires
        forall|i: int| 0 <= i < bodies.len() ==> (#[trigger] bodies[i]).len() <= u32::MAX,
    ensures
        frames(framed(bodies)) == bodies,
        unread(framed(bodies)) == Seq::<u8>::empty(),
    decreases bodies.len(),
{
    if bodies.len() == 0 {
        assert(frames(framed(bodies)) == bodies);
    } else {
        let body = bodies[0];
        let rest = framed(bodies.skip(1));
        let size = body.len() as u32;
        let stream = framed(bodies);
        lemma_value_of_be32(size);
        lemma_value_of_prefix(be32(size), body + rest);
        assert(stream == be32(size) + (body + rest));
        assert(first_body(stream) == body);
        assert(after_first(stream) == rest);
        assert forall|i: int| 0 <= i < bodies.skip(1).len() implies (#[trigger] bodies.skip(
            1,
        )[i]).len() <= u32::MAX by {
            assert(bodies.skip(1)[i] == bodies[i + 1]);
        }
        lemma_framed_is_read_back(bodies.skip(1));
        assert(seq![body] + bodies.skip(1) == bodies);
    }
}

/// `read_u32` of `byteorder::BigEndian`: the number that the first four bytes
/// of `buf` spell, most significant first. It panics on fewer than four bytes.
#[verifier::external_body]
pub(crate) fn read_u32(buf: &[u8]) -> (n: u32)
    requires
        buf@.len() >= 4,
    ensures
        n == be32_value(buf@),
{
    BigEndian::read_u32(buf)
}

/// `write_u32` of `byteorder::BigEndian` on a buffer of four bytes: the bytes
/// of `n`, most significant first.
#[verifier::external_body]
pub(crate) fn write_u32(n: u32) -> (bytes: Vec<u8>)
    ensures
        bytes@ == be32(n),
{
    let mut buf = vec![0u8; 4];
    BigEndian::write_u32(&mut buf, n);
    buf
}

} // verus!
