//! The channel table: channel state keyed by [`AfcId`].

use vstd::prelude::*;

use crate::error::AfcError;
use crate::ids::{AfcId, ChannelId};
use crate::streams::PeerAddr;

verus! {

/// An open channel.
#[derive(Debug)]
pub struct Chan {
    /// The peer's host name, used to open a stream when none is open.
    pub net_id: String,
    /// The sealer's handle for the channel.
    pub chan_id: ChannelId,
    /// The address used to look up the stream.
    pub addr: PeerAddr,
    /// The smallest sequence number still accepted, or `None` once the
    /// sequence numbers are used up.
    pub next_min_seq: Option<u64>,
}

impl Chan {
    /// The smallest sequence number still accepted; `EndOfChannel` once
    /// the channel is exhausted.
    pub fn next_min_seq(&self) -> (r: Result<u64, AfcError>)
        ensures
            r == match self.next_min_seq {
                Some(v) => Ok::<u64, AfcError>(v),
                None => Err(AfcError::EndOfChannel),
            },
    {
        match self.next_min_seq {
            Some(v) => Ok(v),
            None => Err(AfcError::EndOfChannel),
        }
    }
}

/// `c` with its smallest accepted sequence number set to `next`.
pub open spec fn with_next_min_seq(c: Chan, next: Option<u64>) -> Chan {
    Chan { next_min_seq: next, ..c }
}

/// Channel state keyed by channel identifier. Each identifier occurs at
/// most once.
pub struct ChannelTable {
    ids: Vec<AfcId>,
    chans: Vec<Chan>,
    model: Ghost<Map<Seq<u8>, Chan>>,
}

impl View for ChannelTable {
    type V = Map<Seq<u8>, Chan>;

    closed spec fn view(&self) -> Map<Seq<u8>, Chan> {
        self.model@
    }
}

impl ChannelTable {
    /// The table's invariant: one entry per identifier, matching the model.
    pub closed spec fn wf(&self) -> bool {
        &&& self.ids@.len() == self.chans@.len()
        &&& forall|i: int, j: int|
            0 <= i < j < self.ids@.len() ==> #[trigger] self.ids@[i]@ != #[trigger] self.ids@[j]@
        &&& forall|i: int|
            0 <= i < self.ids@.len() ==> {
                &&& self.model@.contains_key(#[trigger] self.ids@[i]@)
                &&& self.model@[self.ids@[i]@] == self.chans@[i]
            }
        &&& forall|k: Seq<u8>|
            #[trigger] self.model@.contains_key(k) ==> exists|i: int|
                0 <= i < self.ids@.len() && #[trigger] self.ids@[i]@ == k
    }

    /// An empty table.
    pub fn new() -> (r: ChannelTable)
        ensures
            r.wf(),
            r@ == Map::<Seq<u8>, Chan>::empty(),
    {
        ChannelTable { ids: Vec::new(), chans: Vec::new(), model: Ghost(Map::empty()) }
    }

    /// The position of `id` in the table, if it is there.
    fn find(&self, id: &AfcId) -> (r: Option<usize>)
        requires
            self.wf(),
        ensures
            match r {
                Some(i) => i < self.ids@.len() && self.ids@[i as int]@ == id@,
                None => !self@.contains_key(id@),
            },
    {
        let mut i: usize = 0;
        while i < self.ids.len()
            invariant
                self.wf(),
                i <= self.ids@.len(),
                forall|j: int| 0 <= j < i ==> self.ids@[j]@ != id@,
            decreases self.ids@.len() - i,
        {
            if self.ids[i].same(id) {
                return Some(i);
            }
            i = i + 1;
        }
        None
    }

    /// Reports whether a channel with identifier `id` exists.
    pub fn contains(&self, id: &AfcId) -> (r: bool)
        requires
            self.wf(),
        ensures
            r == self@.contains_key(id@),
    {
        self.find(id).is_some()
    }

    /// The channel with identifier `id`, if any.
    pub fn get(&self, id: &AfcId) -> (r: Option<&Chan>)
        requires
            self.wf(),
        ensures
            match r {
                Some(c) => self@.contains_key(id@) && *c == self@[id@],
                None => !self@.contains_key(id@),
            },
    {
        match self.find(id) {
            Some(i) => Some(&self.chans[i]),
            None => None,
        }
    }

    /// Adds `chan` under `id`. An identifier already present keeps its
    /// entry untouched, so that a repeated control message cannot reset
    /// the channel's sequence numbers. Returns whether `chan` was added.
    pub fn insert(&mut self, id: AfcId, chan: Chan) -> (r: bool)
        requires
            old(self).wf(),
        ensures
            final(self).wf(),
            r == !old(self)@.contains_key(id@),
            r ==> final(self)@ == old(self)@.insert(id@, chan),
            !r ==> final(self)@ == old(self)@,
    {
        if self.find(&id).is_some() {
            return false;
        }
        let ghost old_ids = self.ids@;
        let ghost old_model = self.model@;
        self.ids.push(id);
        self.chans.push(chan);
        self.model = Ghost(self.model@.insert(id@, chan));
        assert forall|i: int| 0 <= i < old_ids.len() implies #[trigger] self.ids@[i]@ != id@ by {
            assert(old_model.contains_key(old_ids[i]@));
        }
        assert forall|k: Seq<u8>| #[trigger] self.model@.contains_key(k) implies exists|i: int|
            0 <= i < self.ids@.len() && #[trigger] self.ids@[i]@ == k by {
            if k != id@ {
                assert(old_model.contains_key(k));
                let j = choose|j: int| 0 <= j < old_ids.len() && #[trigger] old_ids[j]@ == k;
                assert(self.ids@[j]@ == k);
            } else {
                assert(self.ids@[old_ids.len() as int]@ == k);
            }
        }
        true
    }

    /// Removes the channel with identifier `id`, if any.
    pub fn remove(&mut self, id: &AfcId)
        requires
            old(self).wf(),
        ensures
            final(self).wf(),
            final(self)@ == old(self)@.remove(id@),
    {
        match self.find(id) {
            None => {
                assert(self@ =~= self@.remove(id@));
            },
            Some(i) => {
                let ghost old_ids = self.ids@;
                let ghost old_chans = self.chans@;
                let ghost old_model = self.model@;
                let _ = self.ids.remove(i);
                let _ = self.chans.remove(i);
                self.model = Ghost(self.model@.remove(id@));
                assert forall|a: int, b: int|
                    0 <= a < b < self.ids@.len() implies #[trigger] self.ids@[a]@
                    != #[trigger] self.ids@[b]@ by {
                    let a0 = if a < i { a } else { a + 1 };
                    let b0 = if b < i { b } else { b + 1 };
                    assert(self.ids@[a] == old_ids[a0]);
                    assert(self.ids@[b] == old_ids[b0]);
                }
                assert forall|a: int| 0 <= a < self.ids@.len() implies {
                    &&& self.model@.contains_key(#[trigger] self.ids@[a]@)
                    &&& self.model@[self.ids@[a]@] == self.chans@[a]
                } by {
                    let a0 = if a < i { a } else { a + 1 };
                    assert(self.ids@[a] == old_ids[a0]);
                    assert(self.chans@[a] == old_chans[a0]);
                    assert(a0 != i);
                }
                assert forall|k: Seq<u8>| #[trigger] self.model@.contains_key(k) implies exists|a: int|
                    0 <= a < self.ids@.len() && #[trigger] self.ids@[a]@ == k by {
                    assert(old_model.contains_key(k));
                    let j = choose|j: int| 0 <= j < old_ids.len() && #[trigger] old_ids[j]@ == k;
                    assert(j != i);
                    let a = if j < i { j } else { j - 1 };
                    assert(self.ids@[a] == old_ids[j]);
                }
            },
        }
    }

    /// Sets the smallest accepted sequence number of the channel `id`.
    pub fn set_next_min_seq(&mut self, id: &AfcId, next: Option<u64>)
        requires
            old(self).wf(),
            old(self)@.contains_key(id@),
        ensures
            final(self).wf(),
            final(self)@ == old(self)@.insert(id@, with_next_min_seq(old(self)@[id@], next)),
    {
        let i = self.find(id).unwrap();
        let ghost old_ids = self.ids@;
        let ghost old_model = self.model@;
        self.chans[i].next_min_seq = next;
        self.model = Ghost(self.model@.insert(id@, self.chans@[i as int]));
        assert(self.chans@[i as int] == with_next_min_seq(old_model[id@], next));
        assert forall|a: int| 0 <= a < self.ids@.len() implies {
            &&& self.model@.contains_key(#[trigger] self.ids@[a]@)
            &&& self.model@[self.ids@[a]@] == self.chans@[a]
        } by {
            if a != i {
                assert(self.ids@[a]@ != id@);
            }
        }
        assert forall|k: Seq<u8>| #[trigger] self.model@.contains_key(k) implies exists|a: int|
            0 <= a < self.ids@.len() && #[trigger] self.ids@[a]@ == k by {
            assert(old_model.contains_key(k));
            let j = choose|j: int| 0 <= j < old_ids.len() && #[trigger] old_ids[j]@ == k;
            assert(self.ids@[j]@ == k);
        }
    }
}

} // verus!
