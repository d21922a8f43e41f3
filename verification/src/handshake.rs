//! The fixed 68-byte handshake: one length byte (19), the 19-byte ASCII
//! protocol identifier, 8 reserved bytes, the 20-byte info hash and the
//! 20-byte peer id. The buffer is built and parsed field by field with
//! explicit byte counts; nothing relies on in-memory struct layout.

use crate::errors::PeerError;
use vstd::prelude::*;

verus! {

/// The 19 ASCII bytes of the identifier "BitTorrent protocol".
pub open spec fn protocol_name() -> Seq<u8> {
    seq![
        0x42u8, 0x69u8, 0x74u8, 0x54u8, 0x6fu8, 0x72u8, 0x72u8, 0x65u8, 0x6eu8, 0x74u8,
        0x20u8, 0x70u8, 0x72u8, 0x6fu8, 0x74u8, 0x6fu8, 0x63u8, 0x6fu8, 0x6cu8,
    ]
}

/// The identifier as an array, for building and checking wire buffers.
pub fn protocol_msg() -> (r: [u8; 19])
    ensures
        r@ == protocol_name(),
{
    let r: [u8; 19] = [
        0x42u8, 0x69u8, 0x74u8, 0x54u8, 0x6fu8, 0x72u8, 0x72u8, 0x65u8, 0x6eu8, 0x74u8,
        0x20u8, 0x70u8, 0x72u8, 0x6fu8, 0x74u8, 0x6fu8, 0x63u8, 0x6fu8, 0x6cu8,
    ];
    proof {
        assert(r@ =~= protocol_name());
    }
    r
}

/// One handshake message, exchanged raw in both directions.
#[derive(Debug)]
pub struct Handshake {
    pub length: u8,
    pub msg: [u8; 19],
    pub reserved: [u8; 8],
    pub info_hash: [u8; 20],
    pub peer_id: [u8; 20],
}

/// The exact 68-byte wire layout of a handshake, fields in order, unpadded.
pub open spec fn handshake_bytes(h: Handshake) -> Seq<u8> {
    seq![h.length] + h.msg@ + h.reserved@ + h.info_hash@ + h.peer_id@
}

/// The buffer a fresh local handshake puts on the wire: length byte 19,
/// the protocol identifier, zeroed reserved bytes, then the two hashes.
pub open spec fn build_bytes(info_hash: Seq<u8>, peer_id: Seq<u8>) -> Seq<u8> {
    seq![19u8] + protocol_name() + Seq::new(8, |i: int| 0u8) + info_hash + peer_id
}

/// Whether a received 68-byte buffer carries the right protocol identifier.
pub open spec fn identifier_matches(s: Seq<u8>) -> bool
    recommends
        s.len() == 68,
{
    s.subrange(1, 20) == protocol_name()
}

/// Copies `N` bytes of `bytes` starting at `start` into a fresh array.
fn copy_into<const N: usize>(bytes: &[u8], start: usize) -> (r: [u8; N])
    requires
        start + N <= bytes@.len(),
    ensures
        r@ == bytes@.subrange(start as int, start as int + N as int),
{
    proof {
        broadcast use vstd::slice::axiom_spec_len;
        assert(vstd::slice::spec_slice_len(bytes) == bytes@.len());
        assert(bytes@.len() <= usize::MAX);
    }
    let mut r: [u8; N] = [0u8; N];
    let mut i: usize = 0;
    while i < N
        invariant
            i <= N,
            start + N <= bytes@.len(),
            bytes@.len() <= usize::MAX,
            r@.len() == N,
            forall|j: int| 0 <= j < i ==> r@[j] == bytes@[start + j],
        decreases N - i,
    {
        r[i] = bytes[start + i];
        i += 1;
    }
    proof {
        assert(r@ =~= bytes@.subrange(start as int, start as int + N as int));
    }
    r
}

impl Handshake {
    /// A handshake for the local side: length byte 19, the protocol
    /// identifier, zero reserved bytes, and the given hashes.
    pub fn new(info_hash: [u8; 20], peer_id: [u8; 20]) -> (h: Handshake)
        ensures
            h.length == 19,
            h.msg@ == protocol_name(),
            h.info_hash == info_hash,
            h.peer_id == peer_id,
            handshake_bytes(h) == build_bytes(info_hash@, peer_id@),
    {
        let h = Handshake {
            length: 19,
            msg: protocol_msg(),
            reserved: [0u8, 0u8, 0u8, 0u8, 0u8, 0u8, 0u8, 0u8],
            info_hash,
            peer_id,
        };
        proof {
            assert(h.reserved@ =~= Seq::new(8, |i: int| 0u8));
            assert(handshake_bytes(h) =~= build_bytes(info_hash@, peer_id@));
        }
        h
    }

    /// The 68 wire bytes of this handshake, fields in order.
    pub fn to_bytes(&self) -> (r: Vec<u8>)
        ensures
            r@ == handshake_bytes(*self),
            r@.len() == 68,
    {
        let mut out: Vec<u8> = Vec::new();
        out.push(self.length);
        out.extend_from_slice(self.msg.as_slice());
        out.extend_from_slice(self.reserved.as_slice());
        out.extend_from_slice(self.info_hash.as_slice());
        out.extend_from_slice(self.peer_id.as_slice());
        proof {
            assert(out@ =~= handshake_bytes(*self));
        }
        out
    }

    /// Interprets 68 received bytes with the handshake layout. Succeeds
    /// exactly when the 19-byte identifier equals "BitTorrent protocol";
    /// the length byte, the reserved bytes and the hashes are not validated
    /// (compliant peers may set extension bits). On mismatch the result is
    /// `ProtocolMismatch` and the connection is unusable.
    pub fn parse(bytes: &[u8]) -> (r: Result<Handshake, PeerError>)
        requires
            bytes@.len() == 68,
        ensures
            r is Ok <==> identifier_matches(bytes@),
            r is Err ==> r == Err::<Handshake, PeerError>(PeerError::ProtocolMismatch),
            r is Ok ==> handshake_bytes(r->Ok_0) == bytes@,
            r is Ok ==> r->Ok_0.info_hash@ == bytes@.subrange(28, 48),
            r is Ok ==> r->Ok_0.peer_id@ == bytes@.subrange(48, 68),
    {
        let proto = protocol_msg();
        let mut ok = true;
        let mut i: usize = 0;
        while i < 19
            invariant
                i <= 19,
                bytes@.len() == 68,
                proto@ == protocol_name(),
                ok <==> (forall|j: int| 0 <= j < i ==> bytes@[1 + j] == protocol_name()[j]),
            decreases 19 - i,
        {
            if bytes[1 + i] != proto[i] {
                ok = false;
            }
            i += 1;
        }
        if !ok {
            proof {
                assert(!identifier_matches(bytes@)) by {
                    if bytes@.subrange(1, 20) == protocol_name() {
                        assert(forall|j: int| 0 <= j < 19 ==> bytes@[1 + j]
                            == #[trigger] bytes@.subrange(1, 20)[j]);
                    }
                }
            }
            return Err(PeerError::ProtocolMismatch);
        }
        let h = Handshake {
            length: bytes[0],
            msg: copy_into::<19>(bytes, 1),
            reserved: copy_into::<8>(bytes, 20),
            info_hash: copy_into::<20>(bytes, 28),
            peer_id: copy_into::<20>(bytes, 48),
        };
        proof {
            assert(bytes@.subrange(1, 20) =~= protocol_name());
            assert(handshake_bytes(h) =~= bytes@);
        }
        Ok(h)
    }
}

/// Handshake round trip: the 68 bytes built from any info hash and peer id
/// decode successfully, and the decoded info hash and peer id are the ones
/// that were built in.
pub proof fn lemma_handshake_round_trip(info_hash: [u8; 20], peer_id: [u8; 20])
    ensures
        build_bytes(info_hash@, peer_id@).len() == 68,
        identifier_matches(build_bytes(info_hash@, peer_id@)),
        build_bytes(info_hash@, peer_id@).subrange(28, 48) == info_hash@,
        build_bytes(info_hash@, peer_id@).subrange(48, 68) == peer_id@,
{
    let s = build_bytes(info_hash@, peer_id@);
    assert(s.subrange(1, 20) =~= protocol_name());
    assert(s.subrange(28, 48) =~= info_hash@);
    assert(s.subrange(48, 68) =~= peer_id@);
}

} // verus!
