use bittorrent_rs::conn::{ConnState, WireAction};
use bittorrent_rs::download::{piece_size, Downloader, RouteOutcome};
use bittorrent_rs::errors::PeerError;
use bittorrent_rs::handshake::Handshake;
use bittorrent_rs::message::{Frame, FrameDecoder, Message, MessageTag};
use bittorrent_rs::piece::Request;
use sha1::Digest;

fn sha1_digest_of(data: &[u8]) -> [u8; 20] {
    let mut hasher = sha1::Sha1::new();
    hasher.update(data);
    let out = hasher.finalize();
    let mut r = [0u8; 20];
    r.copy_from_slice(&out);
    r
}

fn piece_message(index: u32, begin: u32, block: &[u8]) -> Message {
    let mut payload = Vec::new();
    payload.extend_from_slice(&index.to_be_bytes());
    payload.extend_from_slice(&begin.to_be_bytes());
    payload.extend_from_slice(block);
    Message { tag: MessageTag::Piece, payload }
}

/// Deterministic filler for piece `index`, as a mock peer would serve it.
fn filler(index: u32, len: usize) -> Vec<u8> {
    (0..len).map(|i| ((i as u32 * 7 + index * 13 + 5) % 256) as u8).collect()
}

#[test]
fn piece_size_nominal_and_final() {
    // 2 full pieces and a final remainder of 5000.
    assert_eq!(piece_size(0, 32768, 70536), 32768);
    assert_eq!(piece_size(1, 32768, 70536), 32768);
    assert_eq!(piece_size(2, 32768, 70536), 5000);
    // An exact multiple: the final piece takes the nominal length.
    assert_eq!(piece_size(1, 32768, 65536), 32768);
    // A torrent smaller than one piece.
    assert_eq!(piece_size(0, 32768, 10), 10);
}

#[test]
fn setup_state_machine_happy_path() {
    let s = ConnState::Connected;
    let s = s.begin_handshake();
    let s = s.handshake_result(true);
    assert_eq!(s, ConnState::AwaitingBitfield);

    let bitfield = Frame::Msg(Message { tag: MessageTag::Bitfield, payload: vec![0xff] });
    let (s, action) = s.on_frame(&bitfield);
    assert_eq!(s, ConnState::InterestedSent);
    assert_eq!(action, WireAction::SendInterested);
    let s = s.interested_sent();
    assert_eq!(s, ConnState::AwaitingUnchoke);

    let unchoke = Frame::Msg(Message { tag: MessageTag::Unchoke, payload: Vec::new() });
    let (s, action) = s.on_frame(&unchoke);
    assert_eq!(s, ConnState::Ready);
    assert_eq!(action, WireAction::Wait);
}

#[test]
fn setup_rejects_wrong_first_message() {
    let s = ConnState::AwaitingBitfield;
    let unchoke = Frame::Msg(Message { tag: MessageTag::Unchoke, payload: Vec::new() });
    let (s, action) = s.on_frame(&unchoke);
    assert_eq!(s, ConnState::Closed);
    assert_eq!(action, WireAction::Abort(PeerError::UnexpectedMessage));
}

#[test]
fn setup_rejects_keep_alive_before_unchoke() {
    let s = ConnState::AwaitingUnchoke;
    let (s, action) = s.on_frame(&Frame::KeepAlive);
    assert_eq!(s, ConnState::Closed);
    assert_eq!(action, WireAction::Abort(PeerError::UnexpectedMessage));
}

#[test]
fn ready_delivers_pieces_and_ignores_the_rest() {
    let s = ConnState::Ready;
    let piece = Frame::Msg(Message { tag: MessageTag::Piece, payload: vec![0; 9] });
    assert_eq!(s.on_frame(&piece), (ConnState::Ready, WireAction::DeliverPiece));
    let choke = Frame::Msg(Message { tag: MessageTag::Choke, payload: Vec::new() });
    assert_eq!(s.on_frame(&choke), (ConnState::Ready, WireAction::Ignore));
    assert_eq!(s.on_frame(&Frame::KeepAlive), (ConnState::Ready, WireAction::Ignore));
}

#[test]
fn handshake_failure_closes() {
    let s = ConnState::Connected.begin_handshake().handshake_result(false);
    assert_eq!(s, ConnState::Closed);
}

#[test]
fn orchestrator_closes_when_done() {
    assert_eq!(ConnState::Ready.close(), ConnState::Closed);
}

#[test]
fn route_ignores_non_piece_messages() {
    let hashes = vec![[0u8; 20]];
    let mut dl = Downloader::new(100, 100, &hashes);
    let have = Message { tag: MessageTag::Have, payload: vec![0, 0, 0, 0] };
    assert_eq!(dl.route(&have).unwrap(), RouteOutcome::Ignored);
}

#[test]
fn route_short_payload_is_violation() {
    let hashes = vec![[0u8; 20]];
    let mut dl = Downloader::new(100, 100, &hashes);
    let bad = Message { tag: MessageTag::Piece, payload: vec![0, 0, 0] };
    assert_eq!(dl.route(&bad).unwrap_err(), PeerError::ProtocolViolation);
}

#[test]
fn route_unknown_index_is_routing_failure() {
    let hashes = vec![[0u8; 20]];
    let mut dl = Downloader::new(100, 100, &hashes);
    let msg = piece_message(7, 0, &[1, 2, 3]);
    assert_eq!(dl.route(&msg).unwrap_err(), PeerError::RoutingFailure);
}

#[test]
fn route_completed_piece_is_routing_failure() {
    let data = filler(0, 100);
    let hashes = vec![sha1_digest_of(&data)];
    let mut dl = Downloader::new(100, 100, &hashes);
    assert_eq!(dl.route(&piece_message(0, 0, &data)).unwrap(), RouteOutcome::Delivered);
    assert!(dl.is_complete());
    // A late duplicate matches no live retriever: reported, not fatal.
    assert_eq!(dl.route(&piece_message(0, 0, &data)).unwrap_err(), PeerError::RoutingFailure);
    assert_eq!(dl.assemble().unwrap(), data);
}

#[test]
fn route_wrong_offset_is_violation() {
    let hashes = vec![[0u8; 20]];
    let mut dl = Downloader::new(20000, 20000, &hashes);
    let msg = piece_message(0, 4096, &[0u8; 16384]);
    assert_eq!(dl.route(&msg).unwrap_err(), PeerError::ProtocolViolation);
    // The outstanding request is unchanged.
    assert_eq!(dl.piece_request(0).unwrap(), Request::new(0, 0, 16384));
}

#[test]
fn out_of_order_responses_reach_their_own_retrievers() {
    // Three concurrent retrievers against one connection that answers out
    // of submission order: every response lands at the piece its index
    // names, and all three complete.
    let plength: u64 = 16384;
    let pieces: Vec<Vec<u8>> = (0..3).map(|i| filler(i, 16384)).collect();
    let hashes: Vec<[u8; 20]> = pieces.iter().map(|p| sha1_digest_of(p)).collect();
    let mut dl = Downloader::new(plength, 3 * plength, &hashes);

    // All three submit their (single) request up front.
    let reqs: Vec<Request> = (0..3).map(|i| dl.piece_request(i).unwrap()).collect();
    assert_eq!(reqs[0], Request::new(0, 0, 16384));
    assert_eq!(reqs[1], Request::new(1, 0, 16384));
    assert_eq!(reqs[2], Request::new(2, 0, 16384));

    // The peer echoes piece 2 first, then 0, then 1.
    for &i in &[2usize, 0, 1] {
        let msg = piece_message(i as u32, 0, &pieces[i]);
        assert_eq!(dl.route(&msg).unwrap(), RouteOutcome::Delivered);
    }

    assert!(dl.is_complete());
    let all = dl.assemble().unwrap();
    let mut expected = Vec::new();
    for p in &pieces {
        expected.extend_from_slice(p);
    }
    assert_eq!(all, expected);
}

#[test]
fn assemble_reports_integrity_failure() {
    let data = filler(0, 64);
    let mut wrong = sha1_digest_of(&data);
    wrong[19] ^= 1;
    let mut dl = Downloader::new(64, 64, &vec![wrong]);
    dl.route(&piece_message(0, 0, &data)).unwrap();
    assert!(dl.is_complete());
    assert_eq!(dl.assemble().unwrap_err(), PeerError::IntegrityFailure);
}

/// A scripted peer: handshake, bitfield, unchoke, then a matching piece
/// response for every request, fed through the real codec both ways.
struct MockPeer {
    info_hash: [u8; 20],
    pieces: Vec<Vec<u8>>,
}

impl MockPeer {
    fn piece_bytes(&self, index: u32, begin: u32, length: u32) -> Vec<u8> {
        let piece = &self.pieces[index as usize];
        piece[begin as usize..(begin + length) as usize].to_vec()
    }
}

#[test]
fn end_to_end_against_mock_peer() {
    // The mock serves 2 full pieces and a short final one with
    // deterministic filler whose digests are installed as expected hashes;
    // the orchestration must return exactly the filler bytes, in order.
    let plength: u64 = 32768;
    let total: u64 = 70536;
    let sizes = [32768usize, 32768, 5000];
    let pieces: Vec<Vec<u8>> = (0..3).map(|i| filler(i as u32, sizes[i])).collect();
    let hashes: Vec<[u8; 20]> = pieces.iter().map(|p| sha1_digest_of(p)).collect();
    let peer = MockPeer { info_hash: [7u8; 20], pieces };

    // Handshake exchange: the mock echoes a handshake with its own peer id.
    let local = Handshake::new(peer.info_hash, [1u8; 20]);
    let sent = local.to_bytes();
    assert_eq!(sent.len(), 68);
    let reply = Handshake::new(peer.info_hash, [2u8; 20]).to_bytes();
    let mut state = ConnState::Connected.begin_handshake();
    let remote = Handshake::parse(&reply);
    state = state.handshake_result(remote.is_ok());
    assert_eq!(state, ConnState::AwaitingBitfield);

    // The mock sends bitfield then unchoke through the real codec.
    let mut decoder = FrameDecoder::new();
    decoder.push(&Frame::Msg(Message { tag: MessageTag::Bitfield, payload: vec![0xe0] }).encode());
    decoder.push(&Frame::Msg(Message { tag: MessageTag::Unchoke, payload: Vec::new() }).encode());

    let bitfield = decoder.try_next().unwrap().unwrap();
    let (s, action) = state.on_frame(&bitfield);
    assert_eq!(action, WireAction::SendInterested);
    // The interested message goes out (and would be written to the wire).
    let interested = Frame::Msg(Message { tag: MessageTag::Interested, payload: Vec::new() });
    assert_eq!(interested.encode(), vec![0, 0, 0, 1, 2]);
    state = s.interested_sent();

    let unchoke = decoder.try_next().unwrap().unwrap();
    let (s, action) = state.on_frame(&unchoke);
    assert_eq!(action, WireAction::Wait);
    state = s;
    assert_eq!(state, ConnState::Ready);

    // Transfer: requests in piece order, each answered through the codec.
    let mut dl = Downloader::new(plength, total, &hashes);
    let npieces = dl.len();
    for i in 0..npieces {
        while let Some(req) = dl.piece_request(i) {
            // The request frame crosses the wire.
            let wire = Frame::Msg(Message {
                tag: MessageTag::Request,
                payload: req.to_payload(),
            })
            .encode();
            // The mock decodes it and answers with the matching block.
            let mut peer_side = FrameDecoder::new();
            peer_side.push(&wire);
            let got = match peer_side.try_next().unwrap().unwrap() {
                Frame::Msg(m) => m,
                Frame::KeepAlive => panic!("request expected"),
            };
            assert_eq!(got.tag, MessageTag::Request);
            let block = peer.piece_bytes(req.index, req.begin, req.length);
            let mut payload = Vec::new();
            payload.extend_from_slice(&req.index.to_be_bytes());
            payload.extend_from_slice(&req.begin.to_be_bytes());
            payload.extend_from_slice(&block);
            decoder.push(&Frame::Msg(Message { tag: MessageTag::Piece, payload }).encode());

            // The orchestrator reads one frame and routes it.
            let frame = decoder.try_next().unwrap().unwrap();
            let (s, action) = state.on_frame(&frame);
            state = s;
            assert_eq!(action, WireAction::DeliverPiece);
            let msg = match frame {
                Frame::Msg(m) => m,
                Frame::KeepAlive => panic!("piece expected"),
            };
            assert_eq!(dl.route(&msg).unwrap(), RouteOutcome::Delivered);
        }
    }

    assert!(dl.is_complete());
    let out = dl.assemble().unwrap();
    let mut expected = Vec::new();
    for i in 0..3 {
        expected.extend_from_slice(&peer.pieces[i]);
    }
    assert_eq!(out, expected);
    assert_eq!(out.len(), total as usize);
}
