//! Tracker-side data: the fields announced to the tracker, the two shapes
//! of its answer, the compact peer list, and the percent-encoding of the
//! info hash for the announce URL. The HTTP round and the bencode surface
//! live with the caller; this module holds the values and the parsing.

use crate::wire::be16_value;
use vstd::prelude::*;

verus! {

/// The query fields of one announce request.
#[derive(Clone, Debug)]
pub struct TrackerRequest {
    pub peer_id: String,
    pub ip: Option<String>,
    pub port: u16,
    pub uploaded: u64,
    pub downloaded: u64,
    pub left: u64,
    pub event: Option<Event>,
    pub compact: u8,
}

/// The optional announce event.
#[derive(Clone, Copy, Debug, PartialEq, Eq, Structural)]
pub enum Event {
    Started,
    Completed,
    Stopped,
}

/// One IPv4 peer candidate from the tracker's compact list: four address
/// bytes in order, and the port.
#[derive(Clone, Copy, Debug, PartialEq, Eq)]
pub struct PeerAddr {
    pub ip: [u8; 4],
    pub port: u16,
}

/// The tracker's peer candidates, in list order.
#[derive(Clone, Debug)]
pub struct Peers(pub Vec<PeerAddr>);

/// The tracker's two answers: an interval with a peer list, or a failure
/// message.
#[derive(Clone, Debug)]
pub enum ResponseType {
    Success { interval: usize, peers: Peers },
    Failure { fail_reason: String },
}

/// A tracker response as the client consumes it.
#[derive(Clone, Debug)]
pub struct TrackerResponse {
    pub resp_type: ResponseType,
}

impl Peers {
    /// Parses a compact peer list: each 6-byte group is four address bytes
    /// then a big-endian port. A length that is not a multiple of 6 denotes
    /// no list and is rejected.
    pub fn from_compact(bytes: &[u8]) -> (r: Option<Peers>)
        ensures
            r is Some <==> bytes@.len() % 6 == 0,
            r is Some ==> (r->Some_0).0@.len() == bytes@.len() / 6,
            r is Some ==> forall|i: int|
                0 <= i < bytes@.len() / 6 ==> {
                    &&& ((#[trigger] (r->Some_0).0@[i]).ip@ =~= bytes@.subrange(6 * i, 6 * i + 4))
                    &&& (r->Some_0).0@[i].port == be16_value(bytes@[6 * i + 4], bytes@[6 * i + 5])
                },
    {
        let n = bytes.len();
        if n % 6 != 0 {
            return None;
        }
        let count = n / 6;
        let mut peers: Vec<PeerAddr> = Vec::new();
        let mut i: usize = 0;
        while i < count
            invariant
                i <= count,
                n == bytes@.len(),
                n % 6 == 0,
                count == n / 6,
                peers@.len() == i,
                forall|j: int|
                    0 <= j < i ==> {
                        &&& (#[trigger] peers@[j]).ip@[0] == bytes@[6 * j]
                        &&& peers@[j].ip@[1] == bytes@[6 * j + 1]
                        &&& peers@[j].ip@[2] == bytes@[6 * j + 2]
                        &&& peers@[j].ip@[3] == bytes@[6 * j + 3]
                        &&& peers@[j].port == be16_value(bytes@[6 * j + 4], bytes@[6 * j + 5])
                    },
            decreases count - i,
        {
            proof {
                assert(6 * (i as int) + 6 <= 6 * (count as int));
            }
            let base = 6 * i;
            let ip: [u8; 4] = [bytes[base], bytes[base + 1], bytes[base + 2], bytes[base + 3]];
            let port = crate::wire::be16_decode(bytes[base + 4], bytes[base + 5]);
            peers.push(PeerAddr { ip, port });
            i += 1;
        }
        proof {
            assert forall|i: int| 0 <= i < bytes@.len() / 6 implies (#[trigger] peers@[i]).ip@
                =~= bytes@.subrange(6 * i, 6 * i + 4) by {
            }
        }
        Some(Peers(peers))
    }
}

/// The lowercase hexadecimal digit of a value below 16.
pub open spec fn hex_digit(n: u8) -> char
    recommends
        n < 16,
{
    if n == 0 {
        '0'
    } else if n == 1 {
        '1'
    } else if n == 2 {
        '2'
    } else if n == 3 {
        '3'
    } else if n == 4 {
        '4'
    } else if n == 5 {
        '5'
    } else if n == 6 {
        '6'
    } else if n == 7 {
        '7'
    } else if n == 8 {
        '8'
    } else if n == 9 {
        '9'
    } else if n == 10 {
        'a'
    } else if n == 11 {
        'b'
    } else if n == 12 {
        'c'
    } else if n == 13 {
        'd'
    } else if n == 14 {
        'e'
    } else {
        'f'
    }
}

/// The two lowercase hex digits of one byte, high nibble first.
pub open spec fn hex_pair(b: u8) -> Seq<char> {
    seq![hex_digit(b / 16), hex_digit(b % 16)]
}

/// Relies on hex::encode and its lowercase digit table "0123456789abcdef":
/// one byte encodes to the digit of its high nibble, then of its low nibble.
#[verifier::external_body]
fn hex_encode_byte(b: u8) -> (r: String)
    ensures
        r@ == hex_pair(b),
{
    hex::encode([b])
}

/// The percent-encoding of an info hash for the announce URL: each byte
/// becomes '%' followed by its two lowercase hex digits.
pub open spec fn spec_urlencoded(bytes: Seq<u8>) -> Seq<char>
    decreases bytes.len(),
{
    if bytes.len() == 0 {
        Seq::empty()
    } else {
        spec_urlencoded(bytes.drop_last()) + seq!['%'] + hex_pair(bytes.last())
    }
}

/// Percent-encodes the 20-byte info hash for the announce URL.
pub fn urlencoded(info_hash: &[u8; 20]) -> (r: String)
    ensures
        r@ == spec_urlencoded(info_hash@),
{
    let mut out = String::new();
    let mut i: usize = 0;
    while i < 20
        invariant
            i <= 20,
            out@ == spec_urlencoded(info_hash@.take(i as int)),
        decreases 20 - i,
    {
        out.append("%");
        let pair = hex_encode_byte(info_hash[i]);
        out.append(pair.as_str());
        proof {
            reveal_strlit("%");
            assert(info_hash@.take(i + 1).drop_last() =~= info_hash@.take(i as int));
            assert(info_hash@.take(i + 1).last() == info_hash@[i as int]);
            assert(out@ =~= spec_urlencoded(info_hash@.take(i + 1)));
        }
        i += 1;
    }
    proof {
        assert(info_hash@.take(20) =~= info_hash@);
    }
    out
}

} // verus!
