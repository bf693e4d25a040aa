//! The sealer's message format, as far as the engine reads it: a 4-byte
//! header (protocol version, message type; both little-endian `u16`)
//! followed by the payload.

use vstd::prelude::*;

use aranya_fast_channels::{HeaderError, Message, ParseError, Payload};

use crate::error::HeaderFault;

verus! {

/// The sealer's protocol version number.
pub const SEALED_VERSION: u16 = 0x6f54;

/// The size in bytes of the sealer's message header.
pub const SEALED_HEADER_SIZE: usize = 4;

/// The kind of payload a sealed message carries.
#[derive(Clone, Copy, Debug, PartialEq, Eq)]
pub enum PayloadKind {
    Data,
    Control,
}

/// The `u16` whose little-endian bytes are `lo`, `hi`.
pub open spec fn le_u16(lo: u8, hi: u8) -> int {
    lo as int + 256 * hi as int
}

/// What parsing the sealed message `b` yields: its payload's kind and
/// bytes, or why its header is refused.
pub open spec fn parse_outcome(b: Seq<u8>) -> Result<(PayloadKind, Seq<u8>), HeaderFault> {
    if b.len() < 4 {
        Err(HeaderFault::InvalidSize)
    } else if le_u16(b[0], b[1]) != SEALED_VERSION {
        Err(HeaderFault::UnknownVersion)
    } else if le_u16(b[2], b[3]) == 1 {
        Ok((PayloadKind::Data, b.subrange(4, b.len() as int)))
    } else if le_u16(b[2], b[3]) == 2 {
        Ok((PayloadKind::Control, b.subrange(4, b.len() as int)))
    } else {
        Err(HeaderFault::InvalidMsgType)
    }
}

/// Relies on `aranya_fast_channels::Message::try_parse`: the header is the
/// first four bytes, the version must be `SEALED_VERSION`, message type 1
/// is data and 2 is control, and the payload is the rest.
#[verifier::external_body]
pub(crate) fn parse_message(b: &[u8]) -> (r: Result<(PayloadKind, Vec<u8>), HeaderFault>)
    ensures
        match (r, parse_outcome(b@)) {
            (Ok(x), Ok(y)) => x.0 == y.0 && x.1@ == y.1,
            (Err(e), Err(f)) => e == f,
            _ => false,
        },
{
    match Message::try_parse(b) {
        Ok(m) => match m.payload {
            Payload::Data(p) => Ok((PayloadKind::Data, p.to_vec())),
            Payload::Control(p) => Ok((PayloadKind::Control, p.to_vec())),
        },
        Err(ParseError::Header(e)) => Err(match e {
            HeaderError::Bug(_) => HeaderFault::Bug,
            HeaderError::InvalidSize => HeaderFault::InvalidSize,
            HeaderError::UnknownVersion => HeaderFault::UnknownVersion,
            HeaderError::InvalidMsgType => HeaderFault::InvalidMsgType,
        }),
    }
}

} // verus!
