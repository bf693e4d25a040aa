//! The AFC engine's state: the stream table, the channel table and the
//! node-identifier counter, with the decisions that send and receive make
//! on them.

use vstd::prelude::*;

use crate::chans::{with_next_min_seq, Chan, ChannelTable};
use crate::error::{AfcError, BugKind};
use crate::ids::{AfcId, ChannelId, LabelId, TeamId};
use crate::sealed::{parse_message, parse_outcome, PayloadKind, SEALED_HEADER_SIZE};
use crate::streams::{PeerAddr, StreamTable};
use crate::wire::{Data, VERSION_V1};

verus! {

/// The smallest sequence number accepted after `seq`: `None` once the
/// 64-bit space is used up.
pub open spec fn after(seq: u64) -> Option<u64> {
    if seq == u64::MAX {
        None
    } else {
        Some((seq + 1) as u64)
    }
}

/// The channel table after opening a message of `version` on channel
/// `id` that decrypted under `label` with sequence number `seq`, or the
/// error that refuses it.
pub open spec fn open_step(
    m: Map<Seq<u8>, Chan>,
    version: u16,
    id: AfcId,
    label: Seq<u8>,
    seq: u64,
) -> Result<Map<Seq<u8>, Chan>, AfcError> {
    if version != VERSION_V1 {
        Err(AfcError::VersionMismatch { expected: VERSION_V1, actual: version })
    } else if !m.contains_key(id@) {
        Err(AfcError::ChannelNotFound(id))
    } else {
        match m[id@].next_min_seq {
            None => Err(AfcError::EndOfChannel),
            Some(next) => if label != m[id@].chan_id.label@ {
                Err(AfcError::Bug(BugKind::LabelMismatch))
            } else if seq < next {
                Err(AfcError::MsgReplayed(seq))
            } else {
                Ok(m.insert(id@, with_next_min_seq(m[id@], after(seq))))
            },
        }
    }
}

/// Handing out a node identifier when the counter stands at `c`: the
/// identifier, or the error once all are used, and the new counter.
pub open spec fn node_id_step(c: nat) -> (Result<u32, AfcError>, nat) {
    if c <= u32::MAX {
        (Ok(c as u32), c + 1)
    } else {
        (Err(AfcError::NodeIdsExhausted), c)
    }
}

/// Once a message with sequence number `s` has been accepted on a channel
/// whose sequence numbers are not used up by it, every later message on
/// that channel whose sequence number is at most `s` is refused as
/// replayed.
pub proof fn lemma_replay_rejected(m: Map<Seq<u8>, Chan>, id: AfcId, label: Seq<u8>, s: u64, s2: u64)
    requires
        open_step(m, VERSION_V1, id, label, s) is Ok,
        s < u64::MAX,
        s2 <= s,
    ensures
        open_step(open_step(m, VERSION_V1, id, label, s)->Ok_0, VERSION_V1, id, label, s2)
            == Err::<Map<Seq<u8>, Chan>, AfcError>(AfcError::MsgReplayed(s2)),
{
    let m2 = open_step(m, VERSION_V1, id, label, s)->Ok_0;
    assert(m2.contains_key(id@));
    assert(m2[id@].next_min_seq == Some((s + 1) as u64));
}

/// Once a message with the largest sequence number has been accepted on a
/// channel, every later message on it is refused with `EndOfChannel`.
pub proof fn lemma_exhausted_channel(
    m: Map<Seq<u8>, Chan>,
    id: AfcId,
    label: Seq<u8>,
    label2: Seq<u8>,
    s2: u64,
)
    requires
        open_step(m, VERSION_V1, id, label, u64::MAX) is Ok,
    ensures
        open_step(open_step(m, VERSION_V1, id, label, u64::MAX)->Ok_0, VERSION_V1, id, label2, s2)
            == Err::<Map<Seq<u8>, Chan>, AfcError>(AfcError::EndOfChannel),
{
    let m2 = open_step(m, VERSION_V1, id, label, u64::MAX)->Ok_0;
    assert(m2.contains_key(id@));
    assert(m2[id@].next_min_seq is None);
}

/// Node identifiers start at 0, and each one handed out is larger than
/// the one before.
pub proof fn lemma_node_ids_increase(c: nat)
    requires
        node_id_step(node_id_step(c).1).0 is Ok,
    ensures
        node_id_step(0).0 == Ok::<u32, AfcError>(0),
        node_id_step(c).0 is Ok,
        node_id_step(c).0->Ok_0 < node_id_step(node_id_step(c).1).0->Ok_0,
{
}

/// What a data message must be decrypted with: the channel's sealer
/// handle, the sealed bytes, and the length of the plaintext they hold.
#[derive(Debug)]
pub struct OpenTarget {
    pub chan_id: ChannelId,
    pub ciphertext: Vec<u8>,
    pub plaintext_len: usize,
}

/// Where a channel's data is sent: the peer's host name, the sealer
/// handle, and the address of the stream.
#[derive(Debug)]
pub struct Route {
    pub net_id: String,
    pub chan_id: ChannelId,
    pub addr: PeerAddr,
}

/// The engine's state.
pub struct Afc {
    streams: StreamTable,
    chans: ChannelTable,
    next_node_id: u64,
    overhead: usize,
}

impl Afc {
    /// The engine's invariant.
    pub closed spec fn wf(&self) -> bool {
        self.streams.wf() && self.chans.wf()
    }

    /// The stream table.
    pub closed spec fn stream_table(&self) -> StreamTable {
        self.streams
    }

    /// The channel table.
    pub closed spec fn channels(&self) -> Map<Seq<u8>, Chan> {
        self.chans@
    }

    /// The next node identifier to hand out.
    pub closed spec fn node_counter(&self) -> nat {
        self.next_node_id as nat
    }

    /// The number of bytes sealing adds to a plaintext.
    pub closed spec fn seal_overhead(&self) -> nat {
        self.overhead as nat
    }

    /// An engine with no streams and no channels, whose sealer adds
    /// `overhead` bytes to each plaintext.
    pub fn new(overhead: usize) -> (r: Afc)
        ensures
            r.wf(),
            r.stream_table()@ == Seq::<PeerAddr>::empty(),
            r.channels() == Map::<Seq<u8>, Chan>::empty(),
            r.node_counter() == 0,
            r.seal_overhead() == overhead,
    {
        Afc { streams: StreamTable::new(), chans: ChannelTable::new(), next_node_id: 0, overhead }
    }

    /// The stream table.
    pub fn streams(&self) -> (r: &StreamTable)
        ensures
            *r == self.stream_table(),
    {
        &self.streams
    }

    /// The stream table, for changes. The engine's invariant holds again
    /// once the table's does.
    pub fn streams_mut(&mut self) -> (r: &mut StreamTable)
        requires
            old(self).wf(),
        ensures
            *r == old(self).stream_table(),
            r.wf(),
            final(self).stream_table() == *final(r),
            final(r).wf() ==> final(self).wf(),
            final(self).channels() == old(self).channels(),
            final(self).node_counter() == old(self).node_counter(),
            final(self).seal_overhead() == old(self).seal_overhead(),
    {
        &mut self.streams
    }

    /// Checks that `version` is the supported protocol version.
    pub fn check_version(&self, version: u16) -> (r: Result<(), AfcError>)
        ensures
            version == VERSION_V1 ==> r == Ok::<(), AfcError>(()),
            version != VERSION_V1 ==> r == Err::<(), AfcError>(
                AfcError::VersionMismatch { expected: VERSION_V1, actual: version },
            ),
    {
        if version != VERSION_V1 {
            Err(AfcError::VersionMismatch { expected: VERSION_V1, actual: version })
        } else {
            Ok(())
        }
    }

    /// Hands out the next node identifier; identifiers start at 0 and
    /// are never reused.
    pub fn get_next_node_id(&mut self) -> (r: Result<u32, AfcError>)
        requires
            old(self).wf(),
        ensures
            final(self).wf(),
            final(self).channels() == old(self).channels(),
            final(self).stream_table()@ == old(self).stream_table()@,
            final(self).seal_overhead() == old(self).seal_overhead(),
            (r, final(self).node_counter()) == node_id_step(old(self).node_counter()),
    {
        if self.next_node_id > u32::MAX as u64 {
            return Err(AfcError::NodeIdsExhausted);
        }
        let id = self.next_node_id as u32;
        self.next_node_id = self.next_node_id + 1;
        Ok(id)
    }

    /// Adds a channel whose next accepted sequence number is 0. A channel
    /// identifier that is already present keeps its entry untouched: the
    /// same control message may arrive twice, and resetting the sequence
    /// numbers would let data messages be replayed.
    pub fn add_channel(
        &mut self,
        id: AfcId,
        net_id: String,
        team_id: TeamId,
        chan_id: ChannelId,
        addr: PeerAddr,
    ) -> (r: Result<(), AfcError>)
        requires
            old(self).wf(),
        ensures
            final(self).wf(),
            r == Ok::<(), AfcError>(()),
            old(self).channels().contains_key(id@) ==> final(self).channels() == old(self).channels(),
            !old(self).channels().contains_key(id@) ==> final(self).channels() == old(
                self,
            ).channels().insert(id@, Chan { net_id, chan_id, addr, next_min_seq: Some(0) }),
            final(self).stream_table()@ == old(self).stream_table()@,
            final(self).node_counter() == old(self).node_counter(),
            final(self).seal_overhead() == old(self).seal_overhead(),
    {
        let _ = team_id;
        let _ = self.chans.insert(id, Chan { net_id, chan_id, addr, next_min_seq: Some(0) });
        Ok(())
    }

    /// Deletes a channel, if present.
    pub fn remove_channel(&mut self, id: AfcId)
        requires
            old(self).wf(),
        ensures
            final(self).wf(),
            final(self).channels() == old(self).channels().remove(id@),
            final(self).stream_table()@ == old(self).stream_table()@,
            final(self).node_counter() == old(self).node_counter(),
            final(self).seal_overhead() == old(self).seal_overhead(),
    {
        self.chans.remove(&id);
    }

    /// The channel with identifier `id`, if any.
    pub fn channel(&self, id: &AfcId) -> (r: Option<&Chan>)
        requires
            self.wf(),
        ensures
            match r {
                Some(c) => self.channels().contains_key(id@) && *c == self.channels()[id@],
                None => !self.channels().contains_key(id@),
            },
    {
        self.chans.get(id)
    }

    /// Where the data of channel `id` goes.
    pub fn route(&self, id: &AfcId) -> (r: Result<Route, AfcError>)
        requires
            self.wf(),
        ensures
            self.channels().contains_key(id@) ==> (r matches Ok(rt) && rt.net_id
                == self.channels()[id@].net_id && rt.chan_id == self.channels()[id@].chan_id
                && rt.addr == self.channels()[id@].addr),
            !self.channels().contains_key(id@) ==> r == Err::<Route, AfcError>(
                AfcError::ChannelNotFound(*id),
            ),
    {
        match self.chans.get(id) {
            None => Err(AfcError::ChannelNotFound(*id)),
            Some(c) => Ok(Route { net_id: c.net_id.clone(), chan_id: c.chan_id, addr: c.addr }),
        }
    }

    /// The size of the datagram that carries a sealed `plaintext_len`-byte
    /// plaintext: the sealer's header, the plaintext and the overhead.
    pub fn datagram_len(&self, plaintext_len: usize) -> (r: Result<usize, AfcError>)
        ensures
            SEALED_HEADER_SIZE + plaintext_len + self.seal_overhead() <= usize::MAX ==> r
                == Ok::<usize, AfcError>(
                (SEALED_HEADER_SIZE + plaintext_len + self.seal_overhead()) as usize,
            ),
            SEALED_HEADER_SIZE + plaintext_len + self.seal_overhead() > usize::MAX ==> r
                == Err::<usize, AfcError>(AfcError::PlaintextTooLarge),
    {
        match SEALED_HEADER_SIZE.checked_add(plaintext_len) {
            None => Err(AfcError::PlaintextTooLarge),
            Some(n) => match n.checked_add(self.overhead) {
                None => Err(AfcError::PlaintextTooLarge),
                Some(m) => Ok(m),
            },
        }
    }

    /// Checks a data message before decryption: its version, its channel,
    /// that the channel is not exhausted, and that it holds a data payload
    /// at least as long as the sealing overhead.
    pub fn open_target(&self, data: &Data) -> (r: Result<OpenTarget, AfcError>)
        requires
            self.wf(),
        ensures
            data.version != VERSION_V1 ==> r == Err::<OpenTarget, AfcError>(
                AfcError::VersionMismatch { expected: VERSION_V1, actual: data.version },
            ),
            data.version == VERSION_V1 && !self.channels().contains_key(data.afc_id@) ==> r
                == Err::<OpenTarget, AfcError>(AfcError::ChannelNotFound(data.afc_id)),
            data.version == VERSION_V1 && self.channels().contains_key(data.afc_id@)
                && self.channels()[data.afc_id@].next_min_seq is None ==> r == Err::<
                OpenTarget,
                AfcError,
            >(AfcError::EndOfChannel),
            data.version == VERSION_V1 && self.channels().contains_key(data.afc_id@)
                && self.channels()[data.afc_id@].next_min_seq is Some ==> match parse_outcome(
                data.ciphertext@,
            ) {
                Err(f) => r == Err::<OpenTarget, AfcError>(AfcError::InvalidMsg(f)),
                Ok((PayloadKind::Control, _)) => r == Err::<OpenTarget, AfcError>(
                    AfcError::Bug(BugKind::ControlPayload),
                ),
                Ok((PayloadKind::Data, p)) => if p.len() < self.seal_overhead() {
                    r == Err::<OpenTarget, AfcError>(AfcError::PayloadTooSmall)
                } else {
                    r matches Ok(t) && t.chan_id == self.channels()[data.afc_id@].chan_id
                        && t.ciphertext@ == p && t.plaintext_len == p.len()
                        - self.seal_overhead()
                },
            },
    {
        self.check_version(data.version)?;
        let chan = match self.chans.get(&data.afc_id) {
            None => return Err(AfcError::ChannelNotFound(data.afc_id)),
            Some(c) => c,
        };
        chan.next_min_seq()?;
        let (kind, payload) = match parse_message(data.ciphertext.as_slice()) {
            Err(f) => return Err(AfcError::InvalidMsg(f)),
            Ok(x) => x,
        };
        match kind {
            PayloadKind::Control => Err(AfcError::Bug(BugKind::ControlPayload)),
            PayloadKind::Data => match payload.len().checked_sub(self.overhead) {
                None => Err(AfcError::PayloadTooSmall),
                Some(n) => Ok(OpenTarget { chan_id: chan.chan_id, ciphertext: payload, plaintext_len: n }),
            },
        }
    }

    /// Accepts a decrypted data message: the label it decrypted under must
    /// be its channel's, and its sequence number must not be below the
    /// channel's smallest accepted one, which then moves past it.
    pub fn open_data(&mut self, data: &Data, plaintext: Vec<u8>, label: LabelId, seq: u64) -> (r:
        Result<(Vec<u8>, AfcId, LabelId, u64), AfcError>)
        requires
            old(self).wf(),
        ensures
            final(self).wf(),
            final(self).stream_table()@ == old(self).stream_table()@,
            final(self).node_counter() == old(self).node_counter(),
            final(self).seal_overhead() == old(self).seal_overhead(),
            match open_step(old(self).channels(), data.version, data.afc_id, label@, seq) {
                Ok(m) => r == Ok::<(Vec<u8>, AfcId, LabelId, u64), AfcError>(
                    (plaintext, data.afc_id, label, seq),
                ) && final(self).channels() == m,
                Err(e) => r == Err::<(Vec<u8>, AfcId, LabelId, u64), AfcError>(e)
                    && final(self).channels() == old(self).channels(),
            },
    {
        self.check_version(data.version)?;
        let (bound, next) = match self.chans.get(&data.afc_id) {
            None => return Err(AfcError::ChannelNotFound(data.afc_id)),
            Some(c) => (c.chan_id.label, c.next_min_seq()?),
        };
        if !bound.same(&label) {
            return Err(AfcError::Bug(BugKind::LabelMismatch));
        }
        if seq < next {
            return Err(AfcError::MsgReplayed(seq));
        }
        let following = seq.checked_add(1);
        self.chans.set_next_min_seq(&data.afc_id, following);
        Ok((plaintext, data.afc_id, label, seq))
    }
}

} // verus!
