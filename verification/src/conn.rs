//! The life of one peer connection, as a pure state machine: the owner of
//! the transport feeds it one event at a time (a handshake outcome, then one
//! frame after another) and performs the action each step hands back. The
//! wire itself is read and written outside the library.

use crate::errors::PeerError;
use crate::message::{Frame, FrameModel, MessageTag};
use vstd::prelude::*;

verus! {

/// The protocol phases of one connection, in the order they are passed:
/// handshake, mandatory bitfield, interested/unchoke negotiation, transfer.
#[derive(Clone, Copy, Debug, PartialEq, Eq, Structural)]
pub enum ConnState {
    /// Transport established, handshake not yet exchanged.
    Connected,
    /// Local handshake written, the peer's 68 bytes awaited.
    Handshaking,
    /// Handshake verified; the peer's first message must be a bitfield.
    AwaitingBitfield,
    /// Bitfield received; an interested message is owed to the peer.
    InterestedSent,
    /// Interested went out; waiting for the unchoke.
    AwaitingUnchoke,
    /// Unchoked: block requests and responses are exchanged.
    Ready,
    /// Torn down, gracefully or on a fatal error.
    Closed,
}

/// What the connection owner must do after one step of the machine.
#[derive(Clone, Copy, Debug, PartialEq, Eq, Structural)]
pub enum WireAction {
    /// Nothing to write; keep reading.
    Wait,
    /// Write an interested message (empty payload), then report it sent.
    SendInterested,
    /// Hand the frame's piece payload to the retriever it belongs to.
    DeliverPiece,
    /// Drop the frame: control traffic the transfer loop does not act on.
    Ignore,
    /// Tear the connection down with this error.
    Abort(PeerError),
}

/// One step of the machine on an incoming frame. During setup the expected
/// tag is mandatory: the first message must be `Bitfield` and the next
/// `Unchoke`; anything else there, a keep-alive included, is a fatal
/// `UnexpectedMessage`. Once `Ready`, `Piece` frames are delivered to their
/// retriever and all other traffic — a mid-transfer `Choke` included — is
/// deliberately ignored rather than treated as a violation, matching the
/// behaviour of the transfer loop this machine drives. A frame in any other
/// phase is unexpected and closes the connection.
pub open spec fn spec_on_frame(s: ConnState, f: FrameModel) -> (ConnState, WireAction) {
    match s {
        ConnState::AwaitingBitfield => match f {
            FrameModel::Msg { tag: MessageTag::Bitfield, .. } => (
                ConnState::InterestedSent,
                WireAction::SendInterested,
            ),
            _ => (ConnState::Closed, WireAction::Abort(PeerError::UnexpectedMessage)),
        },
        ConnState::AwaitingUnchoke => match f {
            FrameModel::Msg { tag: MessageTag::Unchoke, .. } => (ConnState::Ready, WireAction::Wait),
            _ => (ConnState::Closed, WireAction::Abort(PeerError::UnexpectedMessage)),
        },
        ConnState::Ready => match f {
            FrameModel::Msg { tag: MessageTag::Piece, .. } => (
                ConnState::Ready,
                WireAction::DeliverPiece,
            ),
            _ => (ConnState::Ready, WireAction::Ignore),
        },
        _ => (ConnState::Closed, WireAction::Abort(PeerError::UnexpectedMessage)),
    }
}

impl ConnState {
    /// Begins the handshake exchange on a fresh connection.
    pub fn begin_handshake(&self) -> (r: ConnState)
        requires
            *self == ConnState::Connected,
        ensures
            r == ConnState::Handshaking,
    {
        ConnState::Handshaking
    }

    /// Records the handshake's outcome: verified moves on to the mandatory
    /// bitfield; a mismatch closes the connection with no retry.
    pub fn handshake_result(&self, ok: bool) -> (r: ConnState)
        requires
            *self == ConnState::Handshaking,
        ensures
            ok ==> r == ConnState::AwaitingBitfield,
            !ok ==> r == ConnState::Closed,
    {
        if ok {
            ConnState::AwaitingBitfield
        } else {
            ConnState::Closed
        }
    }

    /// Records that the owed interested message went out on the wire.
    pub fn interested_sent(&self) -> (r: ConnState)
        requires
            *self == ConnState::InterestedSent,
        ensures
            r == ConnState::AwaitingUnchoke,
    {
        ConnState::AwaitingUnchoke
    }

    /// Consumes one incoming frame: the next state and the owed action.
    pub fn on_frame(&self, frame: &Frame) -> (r: (ConnState, WireAction))
        ensures
            r == spec_on_frame(*self, frame@),
    {
        match self {
            ConnState::AwaitingBitfield => match frame {
                Frame::Msg(m) if matches!(m.tag, MessageTag::Bitfield) => (
                    ConnState::InterestedSent,
                    WireAction::SendInterested,
                ),
                _ => (ConnState::Closed, WireAction::Abort(PeerError::UnexpectedMessage)),
            },
            ConnState::AwaitingUnchoke => match frame {
                Frame::Msg(m) if matches!(m.tag, MessageTag::Unchoke) => (
                    ConnState::Ready,
                    WireAction::Wait,
                ),
                _ => (ConnState::Closed, WireAction::Abort(PeerError::UnexpectedMessage)),
            },
            ConnState::Ready => match frame {
                Frame::Msg(m) if matches!(m.tag, MessageTag::Piece) => (
                    ConnState::Ready,
                    WireAction::DeliverPiece,
                ),
                _ => (ConnState::Ready, WireAction::Ignore),
            },
            _ => (ConnState::Closed, WireAction::Abort(PeerError::UnexpectedMessage)),
        }
    }

    /// Closes the connection, whatever phase it was in.
    pub fn close(&self) -> (r: ConnState)
        ensures
            r == ConnState::Closed,
    {
        ConnState::Closed
    }
}

} // verus!
