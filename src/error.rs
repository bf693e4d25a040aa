use vstd::prelude::*;

use crate::ids::AfcId;
use crate::streams::PeerAddr;

verus! {

/// Why a header of the sealer's message format was refused.
#[derive(Clone, Copy, Debug, PartialEq, Eq)]
pub enum HeaderFault {
    /// The message is shorter than its header.
    InvalidSize,
    /// The header names an unknown protocol version.
    UnknownVersion,
    /// The header names an unknown message type.
    InvalidMsgType,
    /// The parser found an internal inconsistency.
    Bug,
}

/// An internal invariant that was found violated.
#[derive(Clone, Debug, PartialEq, Eq)]
pub enum BugKind {
    /// A message decrypted under a label other than its channel's.
    LabelMismatch,
    /// A `Data` envelope held a control payload.
    ControlPayload,
    /// Some other internal inconsistency, described.
    Other(String),
}

/// An AFC error.
///
/// Variants that come from the transport or from the sealer carry the
/// text of the underlying error.
#[derive(Clone, Debug, PartialEq, Eq)]
pub enum AfcError {
    /// Unable to bind a network address.
    Bind(String),
    /// An internal invariant was violated.
    Bug(BugKind),
    /// The channel was not found.
    ChannelNotFound(AfcId),
    /// Decrypting a message failed.
    Decryption(String),
    /// Resolving a host name failed.
    DnsLookup(String),
    /// Encrypting a message failed.
    Encryption(String),
    /// The channel's sequence numbers are used up.
    EndOfChannel,
    /// An invalid message header was produced.
    InvalidHeader(HeaderFault),
    /// The envelope did not start with the wire magic.
    InvalidMagic(u32),
    /// The sealed message could not be parsed.
    InvalidMsg(HeaderFault),
    /// The message's sequence number was already used.
    MsgReplayed(u64),
    /// The length prefix exceeds the maximum message size.
    MsgTooLarge { got: usize, max: usize },
    /// The ciphertext is shorter than the sealing overhead.
    PayloadTooSmall,
    /// Unable to get the local address.
    RouterAddr(String),
    /// Serializing or deserializing a message failed.
    Serde(String),
    /// Unable to parse the shared-memory path.
    ShmPathParse(String),
    /// Unable to open the shared-memory key state.
    ShmReadState(String),
    /// Unable to accept a stream.
    StreamAccept(String),
    /// Unable to open a stream.
    StreamConnect(String),
    /// Unable to read from a stream.
    StreamRead(String),
    /// Unable to write to a stream.
    StreamWrite(String),
    /// Unable to shut a stream down.
    StreamShutdown(String),
    /// Unable to get the remote peer's address.
    StreamPeerAddr(String),
    /// No stream is open to the address.
    StreamNotFound(PeerAddr),
    /// A message carries an unsupported version.
    VersionMismatch { expected: u16, actual: u16 },
    /// An envelope ended before its declared length.
    Truncated { need: usize, got: usize },
    /// The plaintext is too large to be sealed.
    PlaintextTooLarge,
    /// Every node identifier has been handed out.
    NodeIdsExhausted,
    /// Some other error.
    Other(String),
}

} // verus!
