//! Bookkeeping of one whole download over one connection: a retriever per
//! piece, sized from the torrent descriptor; index-based demultiplexing of
//! piece responses (responses are matched by the index they carry, never by
//! submission order); and the ordered concatenation of the verified pieces.
//! The transport and the task scheduling live with the caller, which only
//! moves requests, responses and these decisions between the two.

use crate::errors::PeerError;
use crate::message::{Message, MessageTag};
use crate::piece::{parse_piece_payload, sha1_of, spec_block_size, PieceRetriever, Request, BLOCK_MAX};
use crate::wire::be32_value;
use vstd::prelude::*;

verus! {

/// How many pieces a torrent of `total` bytes with nominal piece length
/// `plength` has: `total / plength`, plus one for a final short piece.
pub open spec fn spec_num_pieces(total: int, plength: int) -> int
    recommends
        plength > 0,
{
    total / plength + if total % plength == 0 {
        0int
    } else {
        1int
    }
}

/// The byte size of piece `i`: the nominal length for every piece but the
/// last, whose size is `total % plength` unless that remainder is zero.
pub open spec fn spec_piece_size(i: int, plength: int, total: int) -> int
    recommends
        plength > 0,
{
    if i == spec_num_pieces(total, plength) - 1 && total % plength != 0 {
        total % plength
    } else {
        plength
    }
}

/// The byte size of piece `i` of a torrent descriptor.
pub fn piece_size(i: u64, plength: u64, total: u64) -> (r: u64)
    requires
        0 < plength,
        0 < total,
        i < spec_num_pieces(total as int, plength as int),
    ensures
        r == spec_piece_size(i as int, plength as int, total as int),
        0 < r <= plength,
{
    proof {
        vstd::arithmetic::div_mod::lemma_mod_bound(total as int, plength as int);
        vstd::arithmetic::div_mod::lemma_div_pos_is_pos(total as int, plength as int);
    }
    let q = total / plength;
    let rem = total % plength;
    let last = if rem == 0 {
        q - 1
    } else {
        q
    };
    if i == last && rem != 0 {
        rem
    } else {
        plength
    }
}

/// What routing one message did: delivered a block to its piece's
/// retriever, or ignored a non-piece message.
#[derive(Clone, Copy, Debug, PartialEq, Eq, Structural)]
pub enum RouteOutcome {
    Delivered,
    Ignored,
}

/// The per-piece retrievers of one download, and the routing of each wire
/// response to the piece whose index it carries.
pub struct Downloader {
    pub retrievers: Vec<PieceRetriever>,
}

impl Downloader {
    /// Every retriever is valid and sits at the index of its piece.
    pub open spec fn wf(&self) -> bool {
        &&& self.retrievers@.len() <= u32::MAX
        &&& forall|i: int|
            0 <= i < self.retrievers@.len() ==> (#[trigger] self.retrievers@[i]).wf()
        &&& forall|i: int|
            0 <= i < self.retrievers@.len() ==> (#[trigger] self.retrievers@[i]).index == i
    }

    /// Whether every piece has all its blocks.
    pub open spec fn spec_complete(&self) -> bool {
        forall|i: int|
            0 <= i < self.retrievers@.len() ==> (#[trigger] self.retrievers@[i]).spec_complete()
    }

    /// One retriever per piece: piece `i` is sized by the descriptor (the
    /// last piece takes the remainder) and expects the `i`-th piece hash.
    pub fn new(plength: u64, total: u64, hashes: &Vec<[u8; 20]>) -> (r: Downloader)
        requires
            0 < plength <= u32::MAX,
            0 < total,
            hashes@.len() == spec_num_pieces(total as int, plength as int),
            hashes@.len() <= u32::MAX,
        ensures
            r.wf(),
            r.retrievers@.len() == hashes@.len(),
            forall|i: int| #![trigger r.retrievers@[i]]
                0 <= i < hashes@.len() ==> {
                    &&& r.retrievers@[i].size
                        == spec_piece_size(i, plength as int, total as int)
                    &&& r.retrievers@[i].expected == hashes@[i]
                    &&& r.retrievers@[i].next_block == 0
                    &&& r.retrievers@[i].data@ == Seq::<u8>::empty()
                },
    {
        let n = hashes.len();
        let mut retrievers: Vec<PieceRetriever> = Vec::new();
        let mut i: usize = 0;
        while i < n
            invariant
                i <= n,
                n == hashes@.len(),
                0 < plength <= u32::MAX,
                0 < total,
                n == spec_num_pieces(total as int, plength as int),
                n <= u32::MAX,
                retrievers@.len() == i,
                forall|j: int|
                    0 <= j < i ==> (#[trigger] retrievers@[j]).wf(),
                forall|j: int|
                    0 <= j < i ==> (#[trigger] retrievers@[j]).index == j,
                forall|j: int| #![trigger retrievers@[j]]
                    0 <= j < i ==> {
                        &&& retrievers@[j].size
                            == spec_piece_size(j, plength as int, total as int)
                        &&& retrievers@[j].expected == hashes@[j]
                        &&& retrievers@[j].next_block == 0
                        &&& retrievers@[j].data@ == Seq::<u8>::empty()
                    },
            decreases n - i,
        {
            let size = piece_size(i as u64, plength, total);
            let rtr = PieceRetriever::new(i as u32, size as u32, hashes[i]);
            retrievers.push(rtr);
            i += 1;
        }
        Downloader { retrievers }
    }

    /// The number of pieces.
    pub fn len(&self) -> (r: usize)
        ensures
            r == self.retrievers@.len(),
    {
        self.retrievers.len()
    }

    /// The next block request owed for piece `i`, or nothing once that
    /// piece has all its blocks.
    pub fn piece_request(&self, i: usize) -> (r: Option<Request>)
        requires
            self.wf(),
            i < self.retrievers@.len(),
        ensures
            r is Some <==> !self.retrievers@[i as int].spec_complete(),
            r is Some ==> r->Some_0 == (Request {
                index: i as u32,
                begin: (self.retrievers@[i as int].next_block * BLOCK_MAX as int) as u32,
                length: spec_block_size(
                    self.retrievers@[i as int].size as int,
                    self.retrievers@[i as int].next_block as int,
                ) as u32,
            }),
    {
        let rtr = &self.retrievers[i];
        rtr.next_request()
    }

    /// Whether piece `i` has all its blocks.
    pub fn piece_complete(&self, i: usize) -> (r: bool)
        requires
            self.wf(),
            i < self.retrievers@.len(),
        ensures
            r == self.retrievers@[i as int].spec_complete(),
    {
        let rtr = &self.retrievers[i];
        rtr.is_complete()
    }

    /// Whether every piece has all its blocks.
    pub fn is_complete(&self) -> (r: bool)
        requires
            self.wf(),
        ensures
            r == self.spec_complete(),
    {
        let n = self.retrievers.len();
        let mut i: usize = 0;
        while i < n
            invariant
                i <= n,
                n == self.retrievers@.len(),
                self.wf(),
                forall|j: int|
                    0 <= j < i ==> (#[trigger] self.retrievers@[j]).spec_complete(),
            decreases n - i,
        {
            let rtr = &self.retrievers[i];
            if !rtr.is_complete() {
                return false;
            }
            i += 1;
        }
        true
    }

    /// Routes one message read off the wire while transfer runs. A message
    /// that is not a `Piece` is ignored (the transfer loop acts on no other
    /// traffic). A `Piece` is matched to the retriever whose index its
    /// payload carries — never to a submission order. A payload too short
    /// for its header, or one whose offset or length does not match that
    /// retriever's outstanding request, is a `ProtocolViolation`; an index
    /// that names no piece, or a piece that already finished, is a
    /// `RoutingFailure`, which the caller reports and survives. Exactly a
    /// matching response moves its piece forward; nothing else changes any
    /// retriever.
    pub fn route(&mut self, msg: &Message) -> (r: Result<RouteOutcome, PeerError>)
        requires
            old(self).wf(),
        ensures
            final(self).wf(),
            final(self).retrievers@.len() == old(self).retrievers@.len(),
            !(msg.tag == MessageTag::Piece) ==> r == Ok::<RouteOutcome, PeerError>(
                RouteOutcome::Ignored,
            ) && *final(self) == *old(self),
            msg.tag == MessageTag::Piece && msg.payload@.len() < 8 ==> r == Err::<
                RouteOutcome,
                PeerError,
            >(PeerError::ProtocolViolation) && *final(self) == *old(self),
            (msg.tag == MessageTag::Piece && msg.payload@.len() >= 8) ==> {
                let idx = be32_value(msg.payload@.subrange(0, 4));
                let begin = be32_value(msg.payload@.subrange(4, 8));
                let block = msg.payload@.skip(8);
                if idx >= old(self).retrievers@.len()
                    || old(self).retrievers@[idx].spec_complete() {
                    r == Err::<RouteOutcome, PeerError>(PeerError::RoutingFailure)
                        && final(self).retrievers@ =~= old(self).retrievers@
                } else {
                    let rtr = old(self).retrievers@[idx];
                    if begin == rtr.next_block * BLOCK_MAX as int && block.len()
                        == spec_block_size(rtr.size as int, rtr.next_block as int) {
                        &&& r == Ok::<RouteOutcome, PeerError>(RouteOutcome::Delivered)
                        &&& final(self).retrievers@[idx].next_block == rtr.next_block + 1
                        &&& final(self).retrievers@[idx].data@ == rtr.data@ + block
                        &&& final(self).retrievers@[idx].index == rtr.index
                        &&& final(self).retrievers@[idx].size == rtr.size
                        &&& final(self).retrievers@[idx].expected == rtr.expected
                        &&& forall|j: int|
                            0 <= j < old(self).retrievers@.len() && j != idx
                                ==> final(self).retrievers@[j] == old(self).retrievers@[j]
                    } else {
                        r == Err::<RouteOutcome, PeerError>(PeerError::ProtocolViolation)
                            && final(self).retrievers@ =~= old(self).retrievers@
                    }
                }
            },
    {
        if !matches!(msg.tag, MessageTag::Piece) {
            return Ok(RouteOutcome::Ignored);
        }
        let parsed = match parse_piece_payload(msg.payload.as_slice()) {
            Ok(p) => p,
            Err(e) => {
                return Err(e);
            },
        };
        let idx = parsed.index as usize;
        if idx >= self.retrievers.len() {
            return Err(PeerError::RoutingFailure);
        }
        let complete = {
            let rtr = &self.retrievers[idx];
            rtr.is_complete()
        };
        if complete {
            return Err(PeerError::RoutingFailure);
        }
        let rtr = vstd::std_specs::vec::vec_index_mut(&mut self.retrievers, idx);
        match rtr.submit(parsed.index, parsed.begin, parsed.block.as_slice()) {
            Ok(()) => Ok(RouteOutcome::Delivered),
            Err(e) => Err(e),
        }
    }

    /// The concatenation, in piece-index order, of the data of the first
    /// `n` retrievers.
    pub open spec fn spec_assembled(&self, n: int) -> Seq<u8>
        recommends
            0 <= n <= self.retrievers@.len(),
        decreases n,
    {
        if n <= 0 {
            Seq::empty()
        } else {
            self.spec_assembled(n - 1) + self.retrievers@[n - 1].data@
        }
    }

    /// Whether every assembled piece hashes to its expected digest.
    pub open spec fn spec_all_verified(&self) -> bool {
        forall|i: int|
            0 <= i < self.retrievers@.len() ==> sha1_of(
                (#[trigger] self.retrievers@[i]).data@,
            ) == self.retrievers@[i].expected@
    }

    /// Verifies every piece and concatenates their bytes in ascending piece
    /// index order. Succeeds exactly when every piece's digest matches its
    /// expected hash; the first mismatch discards the output as
    /// `IntegrityFailure`.
    pub fn assemble(&self) -> (r: Result<Vec<u8>, PeerError>)
        requires
            self.wf(),
            self.spec_complete(),
            self.spec_assembled(self.retrievers@.len() as int).len() <= usize::MAX,
        ensures
            r is Ok <==> self.spec_all_verified(),
            r is Ok ==> r->Ok_0@ == self.spec_assembled(self.retrievers@.len() as int),
            r is Err ==> r == Err::<Vec<u8>, PeerError>(PeerError::IntegrityFailure),
    {
        let n = self.retrievers.len();
        let mut out: Vec<u8> = Vec::new();
        let mut i: usize = 0;
        while i < n
            invariant
                i <= n,
                n == self.retrievers@.len(),
                self.wf(),
                self.spec_complete(),
                self.spec_assembled(n as int).len() <= usize::MAX,
                out@ == self.spec_assembled(i as int),
                forall|j: int|
                    0 <= j < i ==> sha1_of((#[trigger] self.retrievers@[j]).data@)
                        == self.retrievers@[j].expected@,
            decreases n - i,
        {
            proof {
                lemma_assembled_len_monotone(self, i as int + 1, n as int);
            }
            let rtr = &self.retrievers[i];
            let mut piece = match rtr.finish() {
                Ok(d) => d,
                Err(e) => {
                    return Err(e);
                },
            };
            out.append(&mut piece);
            i += 1;
        }
        Ok(out)
    }
}

/// A prefix of the assembled output is never longer than the whole.
proof fn lemma_assembled_len_monotone(dl: &Downloader, i: int, n: int)
    requires
        0 <= i <= n <= dl.retrievers@.len(),
    ensures
        dl.spec_assembled(i).len() <= dl.spec_assembled(n).len(),
    decreases n - i,
{
    if i < n {
        lemma_assembled_len_monotone(dl, i + 1, n);
    }
}

} // verus!
