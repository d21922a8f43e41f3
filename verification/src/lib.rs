//! Core of a BitTorrent peer-wire client: the fixed 68-byte handshake codec,
//! the length-prefixed message framing with an incremental stream decoder,
//! the per-piece block retrieval state machine with digest verification,
//! and the routing logic that multiplexes many piece retrievals over one
//! peer connection. Tracker data types and the compact peer-list parser
//! round out the library; sockets, HTTP and the command line live outside it.

pub mod conn;
pub mod download;
pub mod errors;
pub mod handshake;
pub mod message;
pub mod piece;
pub mod tracker;
pub mod wire;
