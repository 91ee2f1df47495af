use vstd::prelude::*;

verus! {

/// Errors local to the wire codec.
#[derive(Debug, Clone, Copy, PartialEq, Eq, Structural)]
pub enum MessageError {
    /// A message could not be built from the given values.
    CreationError,
    /// The bytes read do not hold a complete, well-formed message.
    ReadingError,
    /// Writing a message to the transport failed.
    SendingError,
}

/// Errors of a session while it downloads pieces.
#[derive(Debug, Clone, Copy, PartialEq, Eq, Structural)]
pub enum DownloadError {
    /// Sending or reading the handshake failed, or the info-hash differs.
    HandshakeError,
    /// A message from the peer could not be read (including a timeout).
    CannotReadPeerMessage,
    /// The peer choked us while a piece was in progress.
    PeerChokedUs,
    /// The assembled piece does not hash to its expected digest.
    InvalidPiece,
}

/// Errors of the client around one peer connection.
#[derive(Debug, Clone, Copy, PartialEq, Eq, Structural)]
pub enum ClientError {
    /// Connecting to the peer, or setting its read deadline, failed.
    CannotConnectToPeer,
    /// A message could not be sent to the peer.
    ProtocolError,
}

} // verus!
