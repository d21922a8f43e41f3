//! Length-prefixed peer messages: each frame is a 4-byte big-endian length,
//! one tag byte and a payload, where the length counts the tag byte plus the
//! payload; a length of zero is a keep-alive and carries no tag byte. The
//! stream is chunked arbitrarily by the transport, so decoding buffers bytes
//! until a whole frame is present and only then splits it off.

use crate::errors::PeerError;
use crate::wire::{be32_bytes, be32_decode, be32_encode_push, be32_value, lemma_be32_round_trip};
use vstd::prelude::*;

verus! {

/// The kind of every non-keep-alive peer message.
#[derive(Clone, Copy, Debug, PartialEq, Eq, Structural)]
pub enum MessageTag {
    Choke,
    Unchoke,
    Interested,
    NotInterested,
    Have,
    Bitfield,
    Request,
    Piece,
    Cancel,
}

/// The wire byte of each tag.
pub open spec fn tag_byte(t: MessageTag) -> u8 {
    match t {
        MessageTag::Choke => 0,
        MessageTag::Unchoke => 1,
        MessageTag::Interested => 2,
        MessageTag::NotInterested => 3,
        MessageTag::Have => 4,
        MessageTag::Bitfield => 5,
        MessageTag::Request => 6,
        MessageTag::Piece => 7,
        MessageTag::Cancel => 8,
    }
}

/// The tag a wire byte names, if any.
pub open spec fn tag_of_byte(b: u8) -> Option<MessageTag> {
    if b == 0 {
        Some(MessageTag::Choke)
    } else if b == 1 {
        Some(MessageTag::Unchoke)
    } else if b == 2 {
        Some(MessageTag::Interested)
    } else if b == 3 {
        Some(MessageTag::NotInterested)
    } else if b == 4 {
        Some(MessageTag::Have)
    } else if b == 5 {
        Some(MessageTag::Bitfield)
    } else if b == 6 {
        Some(MessageTag::Request)
    } else if b == 7 {
        Some(MessageTag::Piece)
    } else if b == 8 {
        Some(MessageTag::Cancel)
    } else {
        None
    }
}

impl MessageTag {
    /// The byte this tag puts on the wire.
    pub fn to_byte(&self) -> (b: u8)
        ensures
            b == tag_byte(*self),
    {
        match self {
            MessageTag::Choke => 0,
            MessageTag::Unchoke => 1,
            MessageTag::Interested => 2,
            MessageTag::NotInterested => 3,
            MessageTag::Have => 4,
            MessageTag::Bitfield => 5,
            MessageTag::Request => 6,
            MessageTag::Piece => 7,
            MessageTag::Cancel => 8,
        }
    }

    /// The tag named by a received byte; `None` is an unrecognized tag.
    pub fn from_byte(b: u8) -> (r: Option<MessageTag>)
        ensures
            r == tag_of_byte(b),
    {
        if b == 0 {
            Some(MessageTag::Choke)
        } else if b == 1 {
            Some(MessageTag::Unchoke)
        } else if b == 2 {
            Some(MessageTag::Interested)
        } else if b == 3 {
            Some(MessageTag::NotInterested)
        } else if b == 4 {
            Some(MessageTag::Have)
        } else if b == 5 {
            Some(MessageTag::Bitfield)
        } else if b == 6 {
            Some(MessageTag::Request)
        } else if b == 7 {
            Some(MessageTag::Piece)
        } else if b == 8 {
            Some(MessageTag::Cancel)
        } else {
            None
        }
    }
}

/// Reading back the byte a tag writes gives the tag.
pub proof fn lemma_tag_byte_round_trip(t: MessageTag)
    ensures
        tag_of_byte(tag_byte(t)) == Some(t),
{
}

/// A tagged message with its (tag-dependent, here opaque) payload.
#[derive(Debug)]
pub struct Message {
    pub tag: MessageTag,
    pub payload: Vec<u8>,
}

/// One frame of the stream: a keep-alive or a tagged message.
#[derive(Debug)]
pub enum Frame {
    KeepAlive,
    Msg(Message),
}

/// A frame as specification data.
pub enum FrameModel {
    KeepAlive,
    Msg { tag: MessageTag, payload: Seq<u8> },
}

impl View for Message {
    type V = FrameModel;

    open spec fn view(&self) -> FrameModel {
        FrameModel::Msg { tag: self.tag, payload: self.payload@ }
    }
}

impl View for Frame {
    type V = FrameModel;

    open spec fn view(&self) -> FrameModel {
        match self {
            Frame::KeepAlive => FrameModel::KeepAlive,
            Frame::Msg(m) => m@,
        }
    }
}

/// Whether a frame fits the format: the length prefix must count the tag
/// byte plus the payload in one unsigned 32-bit value.
pub open spec fn frame_wf(f: FrameModel) -> bool {
    match f {
        FrameModel::KeepAlive => true,
        FrameModel::Msg { tag, payload } => payload.len() + 1 <= u32::MAX,
    }
}

/// The wire bytes of a frame: length prefix, then tag byte and payload
/// (nothing further for a keep-alive).
pub open spec fn frame_bytes(f: FrameModel) -> Seq<u8>
    recommends
        frame_wf(f),
{
    match f {
        FrameModel::KeepAlive => be32_bytes(0),
        FrameModel::Msg { tag, payload } => be32_bytes((payload.len() + 1) as u32)
            + seq![tag_byte(tag)] + payload,
    }
}

/// What the front of a buffered stream prefix holds: not yet a whole frame,
/// a complete frame with the count of bytes it occupies, or a complete frame
/// whose tag byte names no message kind.
pub enum TakeStep {
    Pending,
    BadTag(u8),
    Frame(FrameModel, int),
}

/// Reads the first frame off a buffered stream prefix: with under 4 bytes,
/// or under the 4 + length bytes the prefix declares, nothing is decided;
/// a zero length is a keep-alive; otherwise the frame splits into its tag
/// byte and payload once it is complete.
pub open spec fn spec_take(s: Seq<u8>) -> TakeStep {
    if s.len() < 4 {
        TakeStep::Pending
    } else {
        let len = be32_value(s.subrange(0, 4));
        if len == 0 {
            TakeStep::Frame(FrameModel::KeepAlive, 4)
        } else if s.len() < 4 + len {
            TakeStep::Pending
        } else {
            match tag_of_byte(s[4]) {
                None => TakeStep::BadTag(s[4]),
                Some(t) => TakeStep::Frame(
                    FrameModel::Msg { tag: t, payload: s.subrange(5, 4 + len) },
                    4 + len,
                ),
            }
        }
    }
}

/// A length prefix is never negative.
pub proof fn lemma_be32_value_bounds(b: Seq<u8>)
    requires
        b.len() == 4,
    ensures
        0 <= be32_value(b) <= u32::MAX,
{
    assert(b[0] <= 255 && b[1] <= 255 && b[2] <= 255 && b[3] <= 255);
}

impl Frame {
    /// Encodes this frame for the wire in one buffer: big-endian length
    /// prefix, then tag byte and payload for a message, nothing further for
    /// a keep-alive.
    pub fn encode(&self) -> (r: Vec<u8>)
        requires
            frame_wf(self@),
            frame_bytes(self@).len() <= usize::MAX,
        ensures
            r@ == frame_bytes(self@),
    {
        match self {
            Frame::KeepAlive => {
                let mut out: Vec<u8> = Vec::new();
                be32_encode_push(&mut out, 0);
                proof {
                    assert(out@ =~= frame_bytes(self@));
                }
                out
            },
            Frame::Msg(m) => {
                let mut out: Vec<u8> = Vec::new();
                let len32: u32 = m.payload.len() as u32;
                be32_encode_push(&mut out, len32 + 1);
                out.push(m.tag.to_byte());
                out.extend_from_slice(m.payload.as_slice());
                proof {
                    assert(out@ =~= frame_bytes(self@));
                }
                out
            },
        }
    }
}

/// An incremental frame decoder: buffers the stream's bytes however they
/// arrive and hands out each frame as soon as it is complete. The frames
/// decoded depend only on the concatenation of the pushed chunks, never on
/// where the chunk boundaries fell.
pub struct FrameDecoder {
    pub buf: Vec<u8>,
}

impl FrameDecoder {
    /// A decoder with nothing buffered.
    pub fn new() -> (d: FrameDecoder)
        ensures
            d.buf@ == Seq::<u8>::empty(),
    {
        FrameDecoder { buf: Vec::new() }
    }

    /// Buffers the next chunk of the stream after everything already fed.
    pub fn push(&mut self, chunk: &[u8])
        requires
            old(self).buf@.len() + chunk@.len() <= usize::MAX,
        ensures
            final(self).buf@ == old(self).buf@ + chunk@,
    {
        self.buf.extend_from_slice(chunk);
        proof {
            assert(self.buf@ =~= old(self).buf@ + chunk@);
        }
    }

    /// Takes the first complete frame off the buffer, if one is there, and
    /// consumes exactly its bytes; with only part of a frame buffered it
    /// returns nothing and waits for more; a complete frame whose tag byte
    /// names no message kind is `UnrecognizedTag` and the stream is no
    /// longer parseable.
    pub fn try_next(&mut self) -> (r: Result<Option<Frame>, PeerError>)
        ensures
            match spec_take(old(self).buf@) {
                TakeStep::Pending => r == Ok::<Option<Frame>, PeerError>(None)
                    && final(self).buf@ == old(self).buf@,
                TakeStep::BadTag(b) => r == Err::<Option<Frame>, PeerError>(
                    PeerError::UnrecognizedTag,
                ) && final(self).buf@ == old(self).buf@,
                TakeStep::Frame(f, n) => r is Ok && r->Ok_0 is Some && (r->Ok_0->Some_0)@ == f
                    && final(self).buf@ == old(self).buf@.skip(n),
            },
    {
        let blen = self.buf.len();
        if blen < 4 {
            return Ok(None);
        }
        let len32 = be32_decode(self.buf[0], self.buf[1], self.buf[2], self.buf[3]);
        proof {
            assert(seq![self.buf@[0], self.buf@[1], self.buf@[2], self.buf@[3]]
                =~= self.buf@.subrange(0, 4));
        }
        if len32 == 0 {
            let tail = self.buf.split_off(4);
            self.buf = tail;
            proof {
                assert(self.buf@ =~= old(self).buf@.skip(4));
            }
            return Ok(Some(Frame::KeepAlive));
        }
        if (blen as u64) < 4u64 + (len32 as u64) {
            return Ok(None);
        }
        let total: usize = 4 + (len32 as usize);
        match MessageTag::from_byte(self.buf[4]) {
            None => Err(PeerError::UnrecognizedTag),
            Some(tag) => {
                let payload = vstd::slice::slice_to_vec(
                    vstd::slice::slice_subrange(self.buf.as_slice(), 5, total),
                );
                let tail = self.buf.split_off(total);
                self.buf = tail;
                proof {
                    assert(self.buf@ =~= old(self).buf@.skip(4 + len32 as int));
                }
                Ok(Some(Frame::Msg(Message { tag, payload })))
            },
        }
    }
}

/// Frame round trip: decoding the bytes any well-formed frame encodes to
/// yields that frame back and consumes exactly its bytes. This covers a
/// zero-length payload (whose frame still has a tag byte) and the
/// keep-alive (which has none).
pub proof fn lemma_frame_round_trip(f: FrameModel)
    requires
        frame_wf(f),
    ensures
        spec_take(frame_bytes(f)) == TakeStep::Frame(f, frame_bytes(f).len() as int),
{
    let s = frame_bytes(f);
    match f {
        FrameModel::KeepAlive => {
            lemma_be32_round_trip(0);
            assert(s.subrange(0, 4) =~= be32_bytes(0));
        },
        FrameModel::Msg { tag, payload } => {
            let n = (payload.len() + 1) as u32;
            lemma_be32_round_trip(n);
            assert(s.subrange(0, 4) =~= be32_bytes(n));
            assert(s[4] == tag_byte(tag));
            assert(s.subrange(5, 4 + n as int) =~= payload);
        },
    }
}

/// Chunking cannot change what is decoded: a complete frame at the head of
/// a buffer, and the count of bytes it occupies, stay exactly the same
/// whatever bytes arrive behind it, and so does an unrecognized tag. Hence
/// feeding the decoder one byte at a time yields the same frames, in the
/// same order, as feeding everything at once.
pub proof fn lemma_take_prefix_stable(s: Seq<u8>, ext: Seq<u8>)
    ensures
        spec_take(s) is Frame ==> spec_take(s + ext) == spec_take(s),
        spec_take(s) is BadTag ==> spec_take(s + ext) == spec_take(s),
{
    if s.len() >= 4 {
        assert((s + ext).subrange(0, 4) =~= s.subrange(0, 4));
        let len = be32_value(s.subrange(0, 4));
        lemma_be32_value_bounds(s.subrange(0, 4));
        if len > 0 && s.len() >= 4 + len {
            assert((s + ext)[4] == s[4]);
            assert((s + ext).subrange(5, 4 + len) =~= s.subrange(5, 4 + len));
        }
    }
}

/// Draining a buffer greedily: every frame complete at the head, in order,
/// and what stays buffered after them (a partial frame, or everything from
/// an unrecognized tag on).
pub open spec fn spec_drain(s: Seq<u8>) -> (Seq<FrameModel>, Seq<u8>)
    decreases s.len(),
{
    match spec_take(s) {
        TakeStep::Frame(f, n) => if 0 < n <= s.len() {
            let rest = spec_drain(s.skip(n));
            (seq![f] + rest.0, rest.1)
        } else {
            (seq![f], Seq::empty())
        },
        _ => (Seq::<FrameModel>::empty(), s),
    }
}

/// All frames decodable from a buffered prefix, in order.
pub open spec fn spec_frames(s: Seq<u8>) -> Seq<FrameModel> {
    spec_drain(s).0
}

/// A complete frame occupies at least its 4-byte prefix and never more than
/// the buffer it was read from.
pub proof fn lemma_take_frame_bounds(s: Seq<u8>)
    ensures
        spec_take(s) matches TakeStep::Frame(f, n) ==> 4 <= n <= s.len(),
{
    if s.len() >= 4 {
        lemma_be32_value_bounds(s.subrange(0, 4));
    }
}

/// Draining, when more bytes arrive: the frames already complete stay
/// exactly as they were, and only the leftover is drained together with the
/// new bytes.
pub proof fn lemma_drain_append(s: Seq<u8>, ext: Seq<u8>)
    ensures
        spec_drain(s + ext).0 == spec_drain(s).0 + spec_drain(spec_drain(s).1 + ext).0,
        spec_drain(s + ext).1 == spec_drain(spec_drain(s).1 + ext).1,
    decreases s.len(),
{
    lemma_take_frame_bounds(s);
    match spec_take(s) {
        TakeStep::Frame(f, n) => {
            lemma_take_prefix_stable(s, ext);
            assert((s + ext).skip(n) =~= s.skip(n) + ext);
            lemma_drain_append(s.skip(n), ext);
            assert(seq![f] + (spec_drain(s.skip(n)).0 + spec_drain(
                spec_drain(s.skip(n)).1 + ext,
            ).0) =~= (seq![f] + spec_drain(s.skip(n)).0) + spec_drain(
                spec_drain(s.skip(n)).1 + ext,
            ).0);
        },
        TakeStep::Pending => {
            assert(spec_drain(s).1 + ext =~= s + ext);
            assert(spec_drain(s).0 + spec_drain(s + ext).0 =~= spec_drain(s + ext).0);
        },
        TakeStep::BadTag(_) => {
            lemma_take_prefix_stable(s, ext);
            assert(spec_drain(s).1 + ext =~= s + ext);
            assert(spec_drain(s).0 + spec_drain(s + ext).0 =~= spec_drain(s + ext).0);
        },
    }
}

/// The concatenation of a list of stream chunks, in arrival order.
pub open spec fn concat_chunks(chunks: Seq<Seq<u8>>) -> Seq<u8>
    decreases chunks.len(),
{
    if chunks.len() == 0 {
        Seq::empty()
    } else {
        concat_chunks(chunks.drop_last()) + chunks.last()
    }
}

/// A decoder run over a list of chunks: each chunk is buffered and the
/// buffer drained before the next arrives; the run's emitted frames, and
/// what stays buffered at the end.
pub open spec fn spec_run(chunks: Seq<Seq<u8>>) -> (Seq<FrameModel>, Seq<u8>)
    decreases chunks.len(),
{
    if chunks.len() == 0 {
        (Seq::<FrameModel>::empty(), Seq::<u8>::empty())
    } else {
        let prev = spec_run(chunks.drop_last());
        let step = spec_drain(prev.1 + chunks.last());
        (prev.0 + step.0, step.1)
    }
}

/// Chunking cannot change the decoded stream, in full: however the bytes
/// are cut into chunks — one byte at a time included — a run over the
/// chunks emits exactly the frames of the whole stream fed at once, and
/// ends with the same leftover buffered.
pub proof fn lemma_run_equals_at_once(chunks: Seq<Seq<u8>>)
    ensures
        spec_run(chunks).0 == spec_frames(concat_chunks(chunks)),
        spec_run(chunks).1 == spec_drain(concat_chunks(chunks)).1,
    decreases chunks.len(),
{
    if chunks.len() == 0 {
        assert(spec_run(chunks).0 =~= spec_frames(concat_chunks(chunks)));
        assert(spec_run(chunks).1 =~= spec_drain(concat_chunks(chunks)).1);
    } else {
        let pre = chunks.drop_last();
        let last = chunks.last();
        lemma_run_equals_at_once(pre);
        lemma_drain_append(concat_chunks(pre), last);
        assert(spec_run(chunks).0 =~= spec_frames(concat_chunks(chunks)));
    }
}

} // verus!
