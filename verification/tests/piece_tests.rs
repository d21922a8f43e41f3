use bittorrent_rs::errors::PeerError;
use bittorrent_rs::piece::{digest_matches, parse_piece_payload, PieceRetriever, Request};
use sha1::Digest;

fn sha1_digest_of(data: &[u8]) -> [u8; 20] {
    let mut hasher = sha1::Sha1::new();
    hasher.update(data);
    let out = hasher.finalize();
    let mut r = [0u8; 20];
    r.copy_from_slice(&out);
    r
}

#[test]
fn request_payload_exact_bytes() {
    let r = Request::new(1, 2, 3);
    assert_eq!(r.to_payload(), vec![0, 0, 0, 1, 0, 0, 0, 2, 0, 0, 0, 3]);
    let big = Request::new(0x01020304, 0xA0B0C0D0, 16384);
    assert_eq!(
        big.to_payload(),
        vec![0x01, 0x02, 0x03, 0x04, 0xA0, 0xB0, 0xC0, 0xD0, 0x00, 0x00, 0x40, 0x00]
    );
}

#[test]
fn piece_payload_parses_header_and_block() {
    let mut payload = vec![0, 0, 0, 5, 0, 0, 0x40, 0];
    payload.extend_from_slice(&[9, 8, 7]);
    let p = parse_piece_payload(&payload).unwrap();
    assert_eq!(p.index, 5);
    assert_eq!(p.begin, 16384);
    assert_eq!(p.block, vec![9, 8, 7]);
}

#[test]
fn piece_payload_may_have_empty_block() {
    let p = parse_piece_payload(&[0, 0, 0, 0, 0, 0, 0, 0]).unwrap();
    assert_eq!(p.index, 0);
    assert_eq!(p.begin, 0);
    assert_eq!(p.block, Vec::<u8>::new());
}

#[test]
fn piece_payload_too_short_is_violation() {
    let r = parse_piece_payload(&[0, 0, 0, 1, 0, 0, 0]);
    assert_eq!(r.unwrap_err(), PeerError::ProtocolViolation);
}

#[test]
fn two_full_blocks_for_nominal_piece() {
    // A piece of nominal length 32768 with blocks of at most 16384 takes
    // exactly two requests: (0, 16384) then (16384, 16384).
    let data: Vec<u8> = (0..32768u32).map(|i| (i % 256) as u8).collect();
    let mut r = PieceRetriever::new(4, 32768, sha1_digest_of(&data));

    let req1 = r.next_request().expect("first block owed");
    assert_eq!(req1, Request::new(4, 0, 16384));
    r.submit(4, 0, &data[0..16384]).unwrap();

    let req2 = r.next_request().expect("second block owed");
    assert_eq!(req2, Request::new(4, 16384, 16384));
    r.submit(4, 16384, &data[16384..32768]).unwrap();

    assert!(r.is_complete());
    assert_eq!(r.next_request(), None);
    assert_eq!(r.finish().unwrap(), data);
}

#[test]
fn short_final_piece_requests_its_exact_size() {
    // A final piece of 5000 bytes (total_length mod piece_length) takes one
    // request of length 5000, not the nominal piece length.
    let data: Vec<u8> = (0..5000u32).map(|i| (i % 253) as u8).collect();
    let mut r = PieceRetriever::new(0, 5000, sha1_digest_of(&data));

    let req = r.next_request().expect("one block owed");
    assert_eq!(req, Request::new(0, 0, 5000));
    r.submit(0, 0, &data).unwrap();

    assert!(r.is_complete());
    assert_eq!(r.next_request(), None);
    assert_eq!(r.finish().unwrap(), data);
}

#[test]
fn last_block_takes_the_remainder() {
    let data: Vec<u8> = (0..20000u32).map(|i| (i % 101) as u8).collect();
    let mut r = PieceRetriever::new(2, 20000, sha1_digest_of(&data));
    assert_eq!(r.next_request().unwrap(), Request::new(2, 0, 16384));
    r.submit(2, 0, &data[0..16384]).unwrap();
    assert_eq!(r.next_request().unwrap(), Request::new(2, 16384, 3616));
    r.submit(2, 16384, &data[16384..]).unwrap();
    assert!(r.is_complete());
    assert_eq!(r.finish().unwrap(), data);
}

#[test]
fn mismatched_response_is_violation_and_changes_nothing() {
    let mut r = PieceRetriever::new(1, 32768, [0u8; 20]);
    let before = r.next_request().unwrap();

    // Wrong piece index.
    assert_eq!(r.submit(2, 0, &[0u8; 16384]).unwrap_err(), PeerError::ProtocolViolation);
    // Wrong offset.
    assert_eq!(r.submit(1, 16384, &[0u8; 16384]).unwrap_err(), PeerError::ProtocolViolation);
    // Wrong length.
    assert_eq!(r.submit(1, 0, &[0u8; 100]).unwrap_err(), PeerError::ProtocolViolation);

    assert_eq!(r.next_request().unwrap(), before);
    assert!(!r.is_complete());
}

#[test]
fn hash_mismatch_is_integrity_failure() {
    // The assembled bytes are withheld when their digest differs from the
    // expected hash.
    let data: Vec<u8> = vec![42u8; 5000];
    let mut wrong = sha1_digest_of(&data);
    wrong[0] ^= 0xff;
    let mut r = PieceRetriever::new(0, 5000, wrong);
    r.submit(0, 0, &data).unwrap();
    assert!(r.is_complete());
    assert_eq!(r.finish().unwrap_err(), PeerError::IntegrityFailure);
}

#[test]
fn digest_matches_known_vector() {
    // SHA-1 of "abc" — a fixed reference value; this fails if the digest
    // routine were anything but SHA-1 of exactly the input bytes.
    let expected: [u8; 20] = [
        0xa9, 0x99, 0x3e, 0x36, 0x47, 0x06, 0x81, 0x6a, 0xba, 0x3e, 0x25, 0x71, 0x78, 0x50,
        0xc2, 0x6c, 0x9c, 0xd0, 0xd8, 0x9d,
    ];
    assert!(digest_matches(&sha1_digest_of(b"abc"), &expected));
    assert!(!digest_matches(&sha1_digest_of(b"abd"), &expected));

    let mut r = PieceRetriever::new(0, 3, expected);
    r.submit(0, 0, b"abc").unwrap();
    assert_eq!(r.finish().unwrap(), b"abc".to_vec());
}
