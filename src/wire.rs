//! The wire envelope `MAGIC ‖ LEN ‖ BODY` and the messages it carries.
//!
//! `MAGIC` is `"AFC\0"`, `LEN` is the body's length as a little-endian
//! `u32`, and the body is one serialized [`Msg`].

use vstd::prelude::*;

use crate::error::AfcError;
use crate::ids::{AfcId, TeamId};

verus! {

/// A control message: an ephemeral command that creates a channel.
#[derive(Clone, Debug, PartialEq, Eq)]
pub struct Ctrl {
    pub version: u16,
    pub team_id: TeamId,
    pub cmd: Vec<u8>,
}

/// A data message: a sealed payload for a channel.
#[derive(Clone, Debug, PartialEq, Eq)]
pub struct Data {
    pub version: u16,
    pub afc_id: AfcId,
    pub ciphertext: Vec<u8>,
}

/// A message exchanged between peers.
#[derive(Clone, Debug, PartialEq, Eq)]
pub enum Msg {
    Ctrl(Ctrl),
    Data(Data),
}

/// The size in bytes of `MAGIC ‖ LEN`.
pub const WIRE_HEADER_SIZE: usize = 8;

/// The largest body an envelope may carry (10 MiB).
pub const MAX_MSG_SIZE: u32 = 10485760;

/// The protocol version carried by every message.
pub const VERSION_V1: u16 = 0x6f54;

/// The wire magic `"AFC\0"`.
pub open spec fn magic() -> Seq<u8> {
    seq![0x41u8, 0x46u8, 0x43u8, 0x00u8]
}

/// The `u32` whose little-endian bytes are `b`.
pub open spec fn le_u32(b: Seq<u8>) -> u32
    recommends
        b.len() == 4,
{
    (b[0] as u32) | ((b[1] as u32) << 8u32) | ((b[2] as u32) << 16u32) | ((b[3] as u32) << 24u32)
}

/// The little-endian bytes of `n`.
pub open spec fn le_bytes(n: u32) -> Seq<u8> {
    seq![
        (n & 0xffu32) as u8,
        ((n >> 8u32) & 0xffu32) as u8,
        ((n >> 16u32) & 0xffu32) as u8,
        ((n >> 24u32) & 0xffu32) as u8,
    ]
}

/// The envelope that carries `body`.
pub open spec fn frame(body: Seq<u8>) -> Seq<u8> {
    magic() + le_bytes(body.len() as u32) + body
}

/// The outcome of reading an envelope header `h` (eight bytes): the body
/// length, or why the envelope is refused.
pub open spec fn header_outcome(h: Seq<u8>) -> Result<u32, AfcError> {
    if h.subrange(0, 4) != magic() {
        Err(AfcError::InvalidMagic(le_u32(h.subrange(0, 4))))
    } else if le_u32(h.subrange(4, 8)) > MAX_MSG_SIZE {
        Err(AfcError::MsgTooLarge { got: le_u32(h.subrange(4, 8)) as usize, max: MAX_MSG_SIZE as usize })
    } else {
        Ok(le_u32(h.subrange(4, 8)))
    }
}

/// The outcome of decoding the envelope at the front of `b`.
pub open spec fn decode_outcome(b: Seq<u8>) -> Result<Seq<u8>, AfcError> {
    if b.len() < 8 {
        Err(AfcError::Truncated { need: 8, got: b.len() as usize })
    } else {
        match header_outcome(b.subrange(0, 8)) {
            Err(e) => Err(e),
            Ok(n) => if b.len() < 8 + n {
                Err(AfcError::Truncated { need: (8 + n) as usize, got: b.len() as usize })
            } else {
                Ok(b.subrange(8, 8 + n))
            },
        }
    }
}

proof fn lemma_le_round_trip(n: u32)
    ensures
        le_u32(le_bytes(n)) == n,
{
    let b0 = (n & 0xffu32) as u8;
    let b1 = ((n >> 8u32) & 0xffu32) as u8;
    let b2 = ((n >> 16u32) & 0xffu32) as u8;
    let b3 = ((n >> 24u32) & 0xffu32) as u8;
    assert(((b0 as u32) | ((b1 as u32) << 8u32) | ((b2 as u32) << 16u32) | ((b3 as u32) << 24u32))
        == n) by (bit_vector)
        requires
            b0 == (n & 0xffu32) as u8,
            b1 == ((n >> 8u32) & 0xffu32) as u8,
            b2 == ((n >> 16u32) & 0xffu32) as u8,
            b3 == ((n >> 24u32) & 0xffu32) as u8,
    ;
}

/// Reads the little-endian `u32` at `b[at..at + 4]`.
fn read_le_u32(b: &[u8], at: usize) -> (r: u32)
    requires
        at + 4 <= b@.len(),
    ensures
        r == le_u32(b@.subrange(at as int, at + 4)),
{
    let b0 = b[at];
    let b1 = b[at + 1];
    let b2 = b[at + 2];
    let b3 = b[at + 3];
    let r = (b0 as u32) | ((b1 as u32) << 8u32) | ((b2 as u32) << 16u32) | ((b3 as u32) << 24u32);
    assert(b@.subrange(at as int, at + 4) =~= seq![b0, b1, b2, b3]);
    r
}

/// Appends the little-endian bytes of `n` to `out`.
fn push_le_u32(out: &mut Vec<u8>, n: u32)
    ensures
        final(out)@ == old(out)@ + le_bytes(n),
{
    out.push((n & 0xffu32) as u8);
    out.push(((n >> 8u32) & 0xffu32) as u8);
    out.push(((n >> 16u32) & 0xffu32) as u8);
    out.push(((n >> 24u32) & 0xffu32) as u8);
    assert(out@ =~= old(out)@ + le_bytes(n));
}

/// Checks an envelope header: the magic, then the length prefix against
/// [`MAX_MSG_SIZE`]. Nothing of the body is read or allocated.
pub fn parse_header(h: &[u8; 8]) -> (r: Result<u32, AfcError>)
    ensures
        r == header_outcome(h@),
{
    let hs: &[u8] = h.as_slice();
    assert(hs@ == h@);
    let is_magic = h[0] == 0x41u8 && h[1] == 0x46u8 && h[2] == 0x43u8 && h[3] == 0x00u8;
    assert(is_magic == (h@.subrange(0, 4) == magic())) by {
        if is_magic {
            assert(h@.subrange(0, 4) =~= magic());
        } else {
            if h@.subrange(0, 4) == magic() {
                assert(h@[0] == h@.subrange(0, 4)[0]);
                assert(h@[1] == h@.subrange(0, 4)[1]);
                assert(h@[2] == h@.subrange(0, 4)[2]);
                assert(h@[3] == h@.subrange(0, 4)[3]);
            }
        }
    }
    if !is_magic {
        return Err(AfcError::InvalidMagic(read_le_u32(hs, 0)));
    }
    let len = read_le_u32(hs, 4);
    if len > MAX_MSG_SIZE {
        return Err(AfcError::MsgTooLarge { got: len as usize, max: MAX_MSG_SIZE as usize });
    }
    Ok(len)
}

/// Frames `body` as an envelope.
///
/// Fails with `MsgTooLarge` when the body is longer than [`MAX_MSG_SIZE`].
pub fn encode_frame(body: &[u8]) -> (r: Result<Vec<u8>, AfcError>)
    ensures
        body@.len() <= MAX_MSG_SIZE ==> (r matches Ok(v) && v@ == frame(body@)),
        body@.len() > MAX_MSG_SIZE ==> r == Err::<Vec<u8>, AfcError>(
            AfcError::MsgTooLarge { got: body@.len() as usize, max: MAX_MSG_SIZE as usize },
        ),
{
    if body.len() > MAX_MSG_SIZE as usize {
        return Err(AfcError::MsgTooLarge { got: body.len(), max: MAX_MSG_SIZE as usize });
    }
    let mut out: Vec<u8> = Vec::new();
    out.push(0x41u8);
    out.push(0x46u8);
    out.push(0x43u8);
    out.push(0x00u8);
    assert(out@ =~= magic());
    push_le_u32(&mut out, body.len() as u32);
    let mut i: usize = 0;
    while i < body.len()
        invariant
            i <= body@.len(),
            out@ == magic() + le_bytes(body@.len() as u32) + body@.subrange(0, i as int),
        decreases body@.len() - i,
    {
        out.push(body[i]);
        assert(body@.subrange(0, i + 1) =~= body@.subrange(0, i as int).push(body@[i as int]));
        assert(out@ =~= magic() + le_bytes(body@.len() as u32) + body@.subrange(0, i + 1));
        i = i + 1;
    }
    assert(body@.subrange(0, body@.len() as int) =~= body@);
    Ok(out)
}

/// Decodes the envelope at the front of `b`, returning its body. Bytes
/// after the envelope are left alone: they belong to the next one.
pub fn decode_frame(b: &[u8]) -> (r: Result<Vec<u8>, AfcError>)
    ensures
        match (r, decode_outcome(b@)) {
            (Ok(v), Ok(s)) => v@ == s,
            (Err(e), Err(f)) => e == f,
            _ => false,
        },
{
    if b.len() < 8 {
        return Err(AfcError::Truncated { need: 8, got: b.len() });
    }
    let h: [u8; 8] = [b[0], b[1], b[2], b[3], b[4], b[5], b[6], b[7]];
    assert(h@ =~= b@.subrange(0, 8));
    let n = match parse_header(&h) {
        Err(e) => return Err(e),
        Ok(n) => n,
    };
    let end: usize = 8 + n as usize;
    if b.len() < end {
        return Err(AfcError::Truncated { need: end, got: b.len() });
    }
    let mut out: Vec<u8> = Vec::new();
    let mut i: usize = 8;
    while i < end
        invariant
            8 <= i <= end,
            end <= b@.len(),
            out@ == b@.subrange(8, i as int),
        decreases end - i,
    {
        out.push(b[i]);
        assert(b@.subrange(8, i + 1) =~= b@.subrange(8, i as int).push(b@[i as int]));
        i = i + 1;
    }
    Ok(out)
}

/// Why a vectored write was abandoned.
#[derive(Clone, Copy, Debug, PartialEq, Eq)]
pub enum WriteFault {
    /// The transport accepted no bytes although some were left.
    WriteZero,
    /// The transport claimed more bytes than were left.
    Overrun,
}

/// Accounts for a write of `n` bytes when `remain` bytes were left to
/// write, giving the number still left.
pub fn account_write(remain: usize, n: usize) -> (r: Result<usize, WriteFault>)
    ensures
        n == 0 ==> r == Err::<usize, WriteFault>(WriteFault::WriteZero),
        0 < n <= remain ==> r == Ok::<usize, WriteFault>((remain - n) as usize),
        n > remain && n > 0 ==> r == Err::<usize, WriteFault>(WriteFault::Overrun),
{
    if n == 0 {
        return Err(WriteFault::WriteZero);
    }
    if n > remain {
        return Err(WriteFault::Overrun);
    }
    Ok(remain - n)
}

/// Decoding the envelope that frames a body of at most [`MAX_MSG_SIZE`]
/// bytes gives that body back.
pub proof fn lemma_frame_round_trip(body: Seq<u8>)
    requires
        body.len() <= MAX_MSG_SIZE,
    ensures
        decode_outcome(frame(body)) == Ok::<Seq<u8>, AfcError>(body),
{
    let f = frame(body);
    let n = body.len() as u32;
    lemma_le_round_trip(n);
    assert(f.subrange(0, 8).subrange(0, 4) =~= magic());
    assert(f.subrange(0, 8).subrange(4, 8) =~= le_bytes(n));
    assert(f.subrange(8, 8 + n) =~= body);
}

/// An envelope whose first four bytes are not the magic is refused with
/// `InvalidMagic`, carrying those bytes read as a little-endian `u32`.
pub proof fn lemma_bad_magic_rejected(b: Seq<u8>)
    requires
        b.len() >= WIRE_HEADER_SIZE,
        b.subrange(0, 4) != magic(),
    ensures
        decode_outcome(b) == Err::<Seq<u8>, AfcError>(AfcError::InvalidMagic(le_u32(b.subrange(0, 4)))),
{
    assert(b.subrange(0, 8).subrange(0, 4) =~= b.subrange(0, 4));
}

/// An envelope with the magic and a length prefix over [`MAX_MSG_SIZE`] is
/// refused with `MsgTooLarge` whatever follows the header.
pub proof fn lemma_length_cap(b: Seq<u8>)
    requires
        b.len() >= WIRE_HEADER_SIZE,
        b.subrange(0, 4) == magic(),
        le_u32(b.subrange(4, 8)) > MAX_MSG_SIZE,
    ensures
        decode_outcome(b) == Err::<Seq<u8>, AfcError>(
            AfcError::MsgTooLarge { got: le_u32(b.subrange(4, 8)) as usize, max: MAX_MSG_SIZE as usize },
        ),
        decode_outcome(b) == decode_outcome(b.subrange(0, 8)),
{
    assert(b.subrange(0, 8).subrange(0, 4) =~= b.subrange(0, 4));
    assert(b.subrange(0, 8).subrange(4, 8) =~= b.subrange(4, 8));
    assert(b.subrange(0, 8).subrange(0, 8) =~= b.subrange(0, 8));
}

} // verus!
