use vstd::prelude::*;

verus! {

/// Compares two 32-byte identifiers byte by byte.
pub fn bytes32_eq(a: &[u8; 32], b: &[u8; 32]) -> (r: bool)
    ensures
        r == (a@ == b@),
{
    let mut i: usize = 0;
    while i < 32
        invariant
            0 <= i <= 32,
            a@.len() == 32,
            b@.len() == 32,
            forall|j: int| 0 <= j < i ==> a@[j] == b@[j],
        decreases 32 - i,
    {
        if a[i] != b[i] {
            return false;
        }
        i = i + 1;
    }
    assert(a@ =~= b@);
    true
}

/// Globally unique channel identifier; keys the channel table.
#[derive(Clone, Copy, Debug, PartialEq, Eq)]
pub struct AfcId(pub [u8; 32]);

/// Identifier of a team.
#[derive(Clone, Copy, Debug, PartialEq, Eq)]
pub struct TeamId(pub [u8; 32]);

/// Application-visible channel label.
#[derive(Clone, Copy, Debug, PartialEq, Eq)]
pub struct LabelId(pub [u8; 32]);

impl View for AfcId {
    type V = Seq<u8>;

    open spec fn view(&self) -> Seq<u8> {
        self.0@
    }
}

impl View for TeamId {
    type V = Seq<u8>;

    open spec fn view(&self) -> Seq<u8> {
        self.0@
    }
}

impl View for LabelId {
    type V = Seq<u8>;

    open spec fn view(&self) -> Seq<u8> {
        self.0@
    }
}

impl AfcId {
    /// Reports whether two channel identifiers are the same.
    pub fn same(&self, other: &AfcId) -> (r: bool)
        ensures
            r == (self@ == other@),
    {
        bytes32_eq(&self.0, &other.0)
    }
}

impl LabelId {
    /// Reports whether two labels are the same.
    pub fn same(&self, other: &LabelId) -> (r: bool)
        ensures
            r == (self@ == other@),
    {
        bytes32_eq(&self.0, &other.0)
    }
}

/// The sealer's handle for a channel: the local node and the label the
/// channel is bound to.
#[derive(Clone, Copy, Debug, PartialEq, Eq)]
pub struct ChannelId {
    pub node_id: u32,
    pub label: LabelId,
}

} // verus!
