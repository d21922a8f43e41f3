use vstd::prelude::*;

verus! {

/// Every way a peer session can go wrong, from the handshake to piece
/// verification. Which errors abort the connection and which are confined
/// to a single piece is decided by the caller; the variants only name the
/// condition that was detected.
#[derive(Clone, Copy, Debug, PartialEq, Eq, Structural)]
pub enum PeerError {
    /// The handshake's 19-byte identifier was not the BitTorrent protocol name.
    ProtocolMismatch,
    /// A message with the wrong tag arrived while the connection was being set up.
    UnexpectedMessage,
    /// A frame's tag byte names no known message kind.
    UnrecognizedTag,
    /// The stream ended before a declared frame was complete.
    TruncatedFrame,
    /// A piece response's index, offset or length does not match the outstanding request.
    ProtocolViolation,
    /// The assembled piece hashes to something other than the expected digest.
    IntegrityFailure,
    /// A piece response matched no live retriever; the loop drops it and goes on.
    RoutingFailure,
}

impl PeerError {
    /// A short human-readable name for the error, for callers that print it.
    pub fn describe(&self) -> String {
        match self {
            PeerError::ProtocolMismatch => "handshake protocol identifier mismatch".to_string(),
            PeerError::UnexpectedMessage => "unexpected message during connection setup".to_string(),
            PeerError::UnrecognizedTag => "unrecognized message tag".to_string(),
            PeerError::TruncatedFrame => "stream ended inside a frame".to_string(),
            PeerError::ProtocolViolation => "piece response does not match the request".to_string(),
            PeerError::IntegrityFailure => "piece hash mismatch".to_string(),
            PeerError::RoutingFailure => "piece response matched no live retriever".to_string(),
        }
    }
}

} // verus!
