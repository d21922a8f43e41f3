//! Block-level retrieval of one piece: requests of at most 16 KiB are issued
//! strictly in order, each response must match the outstanding request, and
//! the assembled bytes must hash to the expected 20-byte digest before the
//! piece counts as retrieved.

use crate::errors::PeerError;
use crate::wire::{be32_bytes, be32_decode, be32_encode_push, be32_value};
use vstd::prelude::*;

verus! {

/// The largest block requested on the wire: 16 KiB. The last block of a
/// piece may be shorter.
pub const BLOCK_MAX: u32 = 16384;

/// A block request's payload fields: piece index, byte offset within the
/// piece, and requested length.
#[derive(Clone, Copy, Debug, PartialEq, Eq, Structural)]
pub struct Request {
    pub index: u32,
    pub begin: u32,
    pub length: u32,
}

impl Request {
    /// A request with the given fields.
    pub fn new(index: u32, begin: u32, length: u32) -> (r: Request)
        ensures
            r == (Request { index, begin, length }),
    {
        Request { index, begin, length }
    }

    /// The 12 payload bytes of the request: three big-endian 32-bit fields.
    pub open spec fn spec_payload(&self) -> Seq<u8> {
        be32_bytes(self.index) + be32_bytes(self.begin) + be32_bytes(self.length)
    }

    /// Encodes the request payload for the wire.
    pub fn to_payload(&self) -> (r: Vec<u8>)
        ensures
            r@ == self.spec_payload(),
            r@.len() == 12,
    {
        let mut out: Vec<u8> = Vec::new();
        be32_encode_push(&mut out, self.index);
        be32_encode_push(&mut out, self.begin);
        be32_encode_push(&mut out, self.length);
        proof {
            assert(out@ =~= self.spec_payload());
        }
        out
    }
}

/// The parsed fields of a piece (block response) payload: piece index,
/// block offset, and the block bytes, whose length is the payload length
/// minus the 8-byte header.
#[derive(Debug)]
pub struct PiecePayload {
    pub index: u32,
    pub begin: u32,
    pub block: Vec<u8>,
}

/// Splits a piece payload into index, offset and block bytes. A payload of
/// under 8 bytes cannot carry the header the protocol promises, so the peer
/// broke the request/response contract: `ProtocolViolation`.
pub fn parse_piece_payload(payload: &[u8]) -> (r: Result<PiecePayload, PeerError>)
    ensures
        r is Ok <==> payload@.len() >= 8,
        r is Err ==> r == Err::<PiecePayload, PeerError>(PeerError::ProtocolViolation),
        r is Ok ==> r->Ok_0.index == be32_value(payload@.subrange(0, 4)),
        r is Ok ==> r->Ok_0.begin == be32_value(payload@.subrange(4, 8)),
        r is Ok ==> r->Ok_0.block@ == payload@.skip(8),
{
    let n = payload.len();
    if n < 8 {
        return Err(PeerError::ProtocolViolation);
    }
    let index = be32_decode(payload[0], payload[1], payload[2], payload[3]);
    let begin = be32_decode(payload[4], payload[5], payload[6], payload[7]);
    let block = vstd::slice::slice_to_vec(vstd::slice::slice_subrange(payload, 8, n));
    proof {
        assert(seq![payload@[0], payload@[1], payload@[2], payload@[3]]
            =~= payload@.subrange(0, 4));
        assert(seq![payload@[4], payload@[5], payload@[6], payload@[7]]
            =~= payload@.subrange(4, 8));
        assert(payload@.subrange(8, payload@.len() as int) =~= payload@.skip(8));
    }
    Ok(PiecePayload { index, begin, block })
}

/// How many blocks a piece of `size` bytes splits into: the ceiling of
/// `size / BLOCK_MAX`.
pub open spec fn num_blocks(size: int) -> int {
    (size + BLOCK_MAX - 1) / (BLOCK_MAX as int)
}

/// The size of block `b` of a piece of `size` bytes: `BLOCK_MAX` for every
/// block but possibly the last, which takes what remains.
pub open spec fn spec_block_size(size: int, b: int) -> int {
    if size - b * BLOCK_MAX >= BLOCK_MAX {
        BLOCK_MAX as int
    } else {
        size - b * BLOCK_MAX
    }
}

/// How many bytes the first `nb` blocks of a piece of `size` bytes hold.
pub open spec fn spec_received(size: int, nb: int) -> int {
    if nb * BLOCK_MAX <= size {
        nb * BLOCK_MAX
    } else {
        size
    }
}

/// Bounds of the block layout: every block before the end starts inside the
/// piece, is non-empty, and extends the received bytes contiguously.
pub proof fn lemma_block_layout(size: int, b: int)
    requires
        0 < size,
        0 <= b < num_blocks(size),
    ensures
        b * BLOCK_MAX < size,
        0 < spec_block_size(size, b) <= BLOCK_MAX,
        spec_received(size, b) == b * BLOCK_MAX,
        spec_received(size, b + 1) == b * BLOCK_MAX + spec_block_size(size, b),
        b + 1 == num_blocks(size) ==> spec_received(size, b + 1) == size,
        b + 1 < num_blocks(size) ==> (b + 1) * BLOCK_MAX < size,
{
    let bm = BLOCK_MAX as int;
    vstd::arithmetic::div_mod::lemma_fundamental_div_mod(size + bm - 1, bm);
    let q = (size + bm - 1) / bm;
    let r = (size + bm - 1) % bm;
    vstd::arithmetic::div_mod::lemma_mod_bound(size + bm - 1, bm);
    assert(size + bm - 1 == q * bm + r);
    assert(b <= q - 1);
    assert(b * bm <= (q - 1) * bm) by (nonlinear_arith)
        requires b <= q - 1, bm > 0;
    assert((q - 1) * bm == q * bm - bm);
    assert(b * bm < size);
    if b + 1 < q {
        assert((b + 1) * bm <= (q - 1) * bm) by (nonlinear_arith)
            requires b + 1 <= q - 1, bm > 0;
        assert((b + 1) * bm < size);
    }
    assert((b + 1) * bm == b * bm + bm);
    if b + 1 == q {
        assert(size <= q * bm);
    }
}

/// The 20-byte SHA-1 digest of a byte sequence. The digest is a function of
/// the input bytes alone; its value is stated nowhere, so nothing is assumed
/// of it beyond its determinism and length.
pub uninterp spec fn sha1_of(data: Seq<u8>) -> Seq<u8>;

/// Relies on the sha1 crate's `Sha1` hasher (through the `digest::Digest`
/// interface): feeding it bytes and finalizing yields the 20-byte SHA-1
/// digest, a pure function of the input bytes.
#[verifier::external_body]
fn sha1_digest(data: &Vec<u8>) -> (r: [u8; 20])
    ensures
        r@ == sha1_of(data@),
{
    let mut hasher = <sha1::Sha1 as sha1::Digest>::new();
    sha1::Digest::update(&mut hasher, data.as_slice());
    let out = sha1::Digest::finalize(hasher);
    let mut r = [0u8; 20];
    r.copy_from_slice(&out);
    r
}

/// Whether a computed digest equals an expected piece hash, byte for byte.
pub fn digest_matches(digest: &[u8; 20], expected: &[u8; 20]) -> (r: bool)
    ensures
        r == (digest@ == expected@),
{
    let mut i: usize = 0;
    while i < 20
        invariant
            i <= 20,
            forall|j: int| 0 <= j < i ==> digest@[j] == expected@[j],
        decreases 20 - i,
    {
        if digest[i] != expected[i] {
            return false;
        }
        i += 1;
    }
    proof {
        assert(digest@ =~= expected@);
    }
    true
}

/// Retrieves one piece: issues block requests strictly in increasing order,
/// accepts only the response matching the outstanding request, accumulates
/// the block bytes, and finally verifies the assembled piece against its
/// expected digest.
pub struct PieceRetriever {
    pub index: u32,
    pub size: u32,
    pub expected: [u8; 20],
    pub next_block: u32,
    pub data: Vec<u8>,
}

impl PieceRetriever {
    /// The retriever's invariant: a positive piece size, a block cursor
    /// inside the layout, and exactly the bytes of the blocks received so
    /// far accumulated.
    pub open spec fn wf(&self) -> bool {
        &&& 0 < self.size
        &&& 0 <= self.next_block <= num_blocks(self.size as int)
        &&& self.data@.len() == spec_received(self.size as int, self.next_block as int)
    }

    /// Whether every block of the piece has been received.
    pub open spec fn spec_complete(&self) -> bool {
        self.next_block == num_blocks(self.size as int)
    }

    /// A retriever for piece `index` of `size` bytes with expected digest
    /// `expected`, with nothing received yet.
    pub fn new(index: u32, size: u32, expected: [u8; 20]) -> (r: PieceRetriever)
        requires
            0 < size,
        ensures
            r.wf(),
            r.index == index,
            r.size == size,
            r.expected == expected,
            r.next_block == 0,
            r.data@ == Seq::<u8>::empty(),
    {
        PieceRetriever { index, size, expected, next_block: 0, data: Vec::new() }
    }

    /// The number of blocks this piece splits into.
    pub fn block_count(&self) -> (r: u64)
        requires
            self.wf(),
        ensures
            r == num_blocks(self.size as int),
    {
        (self.size as u64 + BLOCK_MAX as u64 - 1) / BLOCK_MAX as u64
    }

    /// Whether every block has been received.
    pub fn is_complete(&self) -> (r: bool)
        requires
            self.wf(),
        ensures
            r == self.spec_complete(),
    {
        self.next_block as u64 == self.block_count()
    }

    /// The next block request, or nothing once every block is in: block `b`
    /// starts at `b * BLOCK_MAX` and asks for `BLOCK_MAX` bytes, except the
    /// last block, which asks exactly for what remains of the piece.
    pub fn next_request(&self) -> (r: Option<Request>)
        requires
            self.wf(),
        ensures
            r is Some <==> !self.spec_complete(),
            r is Some ==> r->Some_0 == (Request {
                index: self.index,
                begin: (self.next_block * BLOCK_MAX as int) as u32,
                length: spec_block_size(self.size as int, self.next_block as int) as u32,
            }),
    {
        if self.is_complete() {
            return None;
        }
        proof {
            lemma_block_layout(self.size as int, self.next_block as int);
        }
        let begin64 = self.next_block as u64 * BLOCK_MAX as u64;
        let begin = begin64 as u32;
        let remaining = self.size - begin;
        let length = if remaining >= BLOCK_MAX {
            BLOCK_MAX
        } else {
            remaining
        };
        Some(Request { index: self.index, begin, length })
    }

    /// Accepts one block response. The response's piece index, offset and
    /// length must equal the outstanding request's exactly; any mismatch is
    /// a `ProtocolViolation` and changes nothing. A match appends the block
    /// bytes and moves the cursor to the next block.
    pub fn submit(&mut self, index: u32, begin: u32, block: &[u8]) -> (r: Result<(), PeerError>)
        requires
            old(self).wf(),
            !old(self).spec_complete(),
        ensures
            final(self).wf(),
            final(self).index == old(self).index,
            final(self).size == old(self).size,
            final(self).expected == old(self).expected,
            r is Ok <==> (index == old(self).index
                && begin == old(self).next_block * BLOCK_MAX as int
                && block@.len() == spec_block_size(old(self).size as int, old(self).next_block as int)),
            r is Ok ==> final(self).next_block == old(self).next_block + 1
                && final(self).data@ == old(self).data@ + block@,
            r is Err ==> r == Err::<(), PeerError>(PeerError::ProtocolViolation)
                && *final(self) == *old(self),
    {
        proof {
            lemma_block_layout(self.size as int, self.next_block as int);
            broadcast use vstd::slice::axiom_spec_len;
            assert(vstd::slice::spec_slice_len(block) == block@.len());
        }
        let begin64 = self.next_block as u64 * BLOCK_MAX as u64;
        let want_begin = begin64 as u32;
        let remaining = self.size - want_begin;
        let want_len = if remaining >= BLOCK_MAX {
            BLOCK_MAX
        } else {
            remaining
        };
        if index != self.index || begin != want_begin || block.len() != want_len as usize {
            return Err(PeerError::ProtocolViolation);
        }
        self.data.extend_from_slice(block);
        self.next_block = self.next_block + 1;
        proof {
            assert(self.data@ =~= old(self).data@ + block@);
        }
        Ok(())
    }

    /// Verifies the assembled piece: computes its SHA-1 digest and compares
    /// it byte for byte with the expected hash. Exactly when they agree, the
    /// piece bytes are returned as valid; otherwise the piece is discarded
    /// with `IntegrityFailure` and the data is not handed out.
    pub fn finish(&self) -> (r: Result<Vec<u8>, PeerError>)
        requires
            self.wf(),
            self.spec_complete(),
        ensures
            r is Ok <==> sha1_of(self.data@) == self.expected@,
            r is Ok ==> r->Ok_0@ == self.data@,
            r is Err ==> r == Err::<Vec<u8>, PeerError>(PeerError::IntegrityFailure),
    {
        let digest = sha1_digest(&self.data);
        if digest_matches(&digest, &self.expected) {
            let mut out: Vec<u8> = Vec::new();
            out.extend_from_slice(self.data.as_slice());
            proof {
                assert(out@ =~= self.data@);
            }
            Ok(out)
        } else {
            Err(PeerError::IntegrityFailure)
        }
    }
}

} // verus!
