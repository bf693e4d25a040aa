//! The stream table: open streams keyed by the remote peer's address, in
//! insertion order, with a readiness scan that starts at a random entry.

use vstd::prelude::*;

use indexmap::IndexMap;
use tokio::net::TcpStream;

verus! {

/// A remote peer's socket address, as plain values: the IP address (an
/// IPv4 address in the low 32 bits when `is_v6` is false), the port, and
/// for IPv6 the flow label and scope.
#[derive(Clone, Copy, Debug, PartialEq, Eq, Hash)]
pub struct PeerAddr {
    pub is_v6: bool,
    pub ip: u128,
    pub port: u16,
    pub flowinfo: u32,
    pub scope_id: u32,
}

#[verifier::external_type_specification]
#[verifier::external_body]
#[verifier::reject_recursive_types(K)]
#[verifier::reject_recursive_types(V)]
#[verifier::reject_recursive_types(S)]
pub struct ExIndexMap<K, V, S>(IndexMap<K, V, S>);

#[verifier::external_type_specification]
#[verifier::external_body]
pub struct ExTcpStream(TcpStream);

/// The keys of a stream map, in the map's order.
pub uninterp spec fn stream_keys(m: IndexMap<PeerAddr, TcpStream>) -> Seq<PeerAddr>;

/// Relies on `IndexMap::new`: the new map is empty.
#[verifier::external_body]
fn map_new() -> (r: IndexMap<PeerAddr, TcpStream>)
    ensures
        stream_keys(r) == Seq::<PeerAddr>::empty(),
{
    IndexMap::new()
}

/// Relies on `IndexMap::len`: the number of entries.
#[verifier::external_body]
fn map_len(m: &IndexMap<PeerAddr, TcpStream>) -> (r: usize)
    ensures
        r == stream_keys(*m).len(),
{
    m.len()
}

/// Relies on `IndexMap::contains_key`: whether an entry has key `a`.
#[verifier::external_body]
fn map_contains(m: &IndexMap<PeerAddr, TcpStream>, a: &PeerAddr) -> (r: bool)
    ensures
        r == stream_keys(*m).contains(*a),
{
    m.contains_key(a)
}

/// Relies on `IndexMap::get_index`: the entry at position `i`, if any.
#[verifier::external_body]
fn map_get_index(m: &IndexMap<PeerAddr, TcpStream>, i: usize) -> (r: Option<(PeerAddr, &TcpStream)>)
    ensures
        i < stream_keys(*m).len() ==> r.is_some() && r.unwrap().0 == stream_keys(*m)[i as int],
        i >= stream_keys(*m).len() ==> r.is_none(),
{
    m.get_index(i).map(|(k, v)| (*k, v))
}

/// Relies on `IndexMap::get_mut`: the stream under key `a`, if any; the
/// keys are not changed.
#[verifier::external_body]
fn map_get_mut<'a>(m: &'a mut IndexMap<PeerAddr, TcpStream>, a: &PeerAddr) -> (r: Option<&'a mut TcpStream>)
    ensures
        r.is_some() == stream_keys(*old(m)).contains(*a),
        stream_keys(*final(m)) == stream_keys(*old(m)),
{
    m.get_mut(a)
}

/// Relies on `IndexMap::insert`: a key that is not present is appended at
/// the end.
#[verifier::external_body]
fn map_insert(m: &mut IndexMap<PeerAddr, TcpStream>, a: PeerAddr, s: TcpStream)
    requires
        !stream_keys(*old(m)).contains(a),
    ensures
        stream_keys(*final(m)) == stream_keys(*old(m)).push(a),
{
    m.insert(a, s);
}

/// Relies on `IndexMap::swap_remove_index`: the entry at `i` is replaced
/// by the last entry, which is then popped.
#[verifier::external_body]
fn map_swap_remove_index(m: &mut IndexMap<PeerAddr, TcpStream>, i: usize) -> (r: Option<TcpStream>)
    requires
        i < stream_keys(*old(m)).len(),
    ensures
        r.is_some(),
        stream_keys(*final(m)) == stream_keys(*old(m)).update(
            i as int,
            stream_keys(*old(m)).last(),
        ).drop_last(),
{
    m.swap_remove_index(i).map(|(_, s)| s)
}

/// Relies on `aranya_crypto::Random` for `usize`, drawn from the system
/// CSPRNG: any value may come back.
#[verifier::external_body]
fn random_seed() -> (r: usize) {
    <usize as aranya_crypto::Random>::random(&mut aranya_crypto::Rng)
}

/// What a readiness probe found out about one stream.
#[derive(Clone, Copy, Debug, PartialEq, Eq, Structural)]
pub enum Probe {
    /// The stream is readable and holds at least a wire header.
    Ready,
    /// The stream cannot make progress yet.
    NotReady,
    /// The probe failed; the stream is to be dropped.
    Failed,
}

/// What the readiness scan asks for next.
#[derive(Clone, Copy, Debug, PartialEq, Eq)]
pub enum ScanStep {
    /// Probe the stream at this position.
    Check(usize),
    /// The stream at this address is ready.
    Found(PeerAddr),
    /// No stream is ready.
    Idle,
}

/// The position of a readiness scan: where it started, the position to
/// probe next, and how many probes are left.
#[derive(Clone, Copy, Debug, PartialEq, Eq)]
pub struct Scan {
    pub start: usize,
    pub idx: usize,
    pub left: usize,
}

/// The open streams, keyed by the remote peer's address. An address has
/// at most one stream.
pub struct StreamTable {
    streams: IndexMap<PeerAddr, TcpStream>,
}

impl View for StreamTable {
    type V = Seq<PeerAddr>;

    closed spec fn view(&self) -> Seq<PeerAddr> {
        stream_keys(self.streams)
    }
}

/// Where a scan of `n` streams that is handed `seed` starts.
pub open spec fn scan_start(seed: usize, n: nat) -> usize {
    (seed % (n as usize)) as usize
}

/// The keys after evicting position `i`: the last key takes its place.
pub open spec fn evict(keys: Seq<PeerAddr>, i: int) -> Seq<PeerAddr> {
    keys.update(i, keys.last()).drop_last()
}

/// The position to probe after the entry at `idx` of a scan that started
/// at `start` was evicted, leaving `n` entries.
pub open spec fn next_after_evict(idx: usize, start: usize, n: nat) -> usize {
    if idx == n {
        0
    } else if idx < start && start <= n {
        ((idx + 1) % (n as int)) as usize
    } else {
        idx
    }
}

/// Moves a scan past a stream that was not ready (`Probe::NotReady`) or
/// whose probe failed (`Probe::Failed`, which evicts it) in a table of `n`
/// streams.
pub fn advance_scan(scan: Scan, n: usize, probe: Probe) -> (r: Scan)
    requires
        probe != Probe::Ready,
        0 < scan.left <= n,
        scan.idx < n,
    ensures
        r.start == scan.start,
        r.left == scan.left - 1,
        probe == Probe::NotReady ==> r.idx == (scan.idx + 1) % (n as int),
        probe == Probe::Failed ==> r.idx == next_after_evict(scan.idx, scan.start, (n - 1) as nat),
        r.left > 0 ==> probe == Probe::NotReady ==> r.idx < n,
        r.left > 0 ==> probe == Probe::Failed ==> r.idx < n - 1,
{
    let idx = if probe == Probe::NotReady {
        (scan.idx + 1) % n
    } else {
        let m = n - 1;
        if scan.idx == m {
            0
        } else if scan.idx < scan.start && scan.start <= m {
            (scan.idx + 1) % m
        } else {
            scan.idx
        }
    };
    Scan { start: scan.start, idx, left: scan.left - 1 }
}

impl StreamTable {
    /// The table's invariant: at most one stream per address.
    pub open spec fn wf(&self) -> bool {
        self@.no_duplicates()
    }

    /// Whether `scan` can continue on this table.
    pub open spec fn scan_ok(&self, scan: Scan) -> bool {
        &&& scan.left <= self@.len()
        &&& scan.left > 0 ==> scan.idx < self@.len()
    }

    /// An empty table.
    pub fn new() -> (r: StreamTable)
        ensures
            r.wf(),
            r@ == Seq::<PeerAddr>::empty(),
    {
        StreamTable { streams: map_new() }
    }

    /// The number of open streams.
    pub fn len(&self) -> (r: usize)
        ensures
            r == self@.len(),
    {
        map_len(&self.streams)
    }

    /// Reports whether a stream to `addr` is open.
    pub fn contains(&self, addr: &PeerAddr) -> (r: bool)
        ensures
            r == self@.contains(*addr),
    {
        map_contains(&self.streams, addr)
    }

    /// The stream to `addr`, if one is open.
    pub fn get_mut(&mut self, addr: &PeerAddr) -> (r: Option<&mut TcpStream>)
        requires
            old(self).wf(),
        ensures
            r.is_some() == old(self)@.contains(*addr),
            final(self)@ == old(self)@,
            final(self).wf(),
    {
        map_get_mut(&mut self.streams, addr)
    }

    /// The address and stream at position `i`, if any.
    pub fn get_index(&self, i: usize) -> (r: Option<(PeerAddr, &TcpStream)>)
        ensures
            i < self@.len() ==> (r matches Some(e) && e.0 == self@[i as int]),
            i >= self@.len() ==> r.is_none(),
    {
        map_get_index(&self.streams, i)
    }

    /// Adds `stream` under `addr`. An address that already has a stream
    /// keeps it, and `stream` is handed back as the duplicate.
    pub fn insert(&mut self, addr: PeerAddr, stream: TcpStream) -> (r: Option<TcpStream>)
        requires
            old(self).wf(),
        ensures
            final(self).wf(),
            r.is_some() == old(self)@.contains(addr),
            old(self)@.contains(addr) ==> final(self)@ == old(self)@,
            !old(self)@.contains(addr) ==> final(self)@ == old(self)@.push(addr),
    {
        if map_contains(&self.streams, &addr) {
            return Some(stream);
        }
        map_insert(&mut self.streams, addr, stream);
        None
    }

    /// The first of `candidates` that has an open stream, if any.
    pub fn find_open(&self, candidates: &Vec<PeerAddr>) -> (r: Option<PeerAddr>)
        ensures
            match r {
                Some(a) => exists|i: int|
                    0 <= i < candidates@.len() && candidates@[i] == a && self@.contains(a) && (
                    forall|j: int| 0 <= j < i ==> !self@.contains(#[trigger] candidates@[j])),
                None => forall|j: int|
                    0 <= j < candidates@.len() ==> !self@.contains(#[trigger] candidates@[j]),
            },
    {
        let mut i: usize = 0;
        while i < candidates.len()
            invariant
                i <= candidates@.len(),
                forall|j: int| 0 <= j < i ==> !self@.contains(#[trigger] candidates@[j]),
            decreases candidates@.len() - i,
        {
            if self.contains(&candidates[i]) {
                return Some(candidates[i]);
            }
            i = i + 1;
        }
        None
    }

    /// Starts a readiness scan at position `seed` modulo the number of
    /// streams; every stream is then probed at most once, in order,
    /// wrapping around.
    pub fn begin_scan_at(&self, seed: usize) -> (r: (Scan, ScanStep))
        ensures
            self.scan_ok(r.0),
            self@.len() == 0 ==> r.1 == ScanStep::Idle && r.0.left == 0,
            self@.len() > 0 ==> {
                &&& r.0.start == scan_start(seed, self@.len())
                &&& r.0.idx == r.0.start
                &&& r.0.left == self@.len()
                &&& r.1 == ScanStep::Check(r.0.idx)
            },
    {
        let n = self.len();
        if n == 0 {
            return (Scan { start: 0, idx: 0, left: 0 }, ScanStep::Idle);
        }
        let start = seed % n;
        (Scan { start, idx: start, left: n }, ScanStep::Check(start))
    }

    /// Starts a readiness scan at a random position.
    pub fn begin_scan(&self) -> (r: (Scan, ScanStep))
        ensures
            self.scan_ok(r.0),
            self@.len() == 0 ==> r.1 == ScanStep::Idle,
            self@.len() > 0 ==> r.1 == ScanStep::Check(r.0.idx) && r.0.left == self@.len()
                && r.0.idx == r.0.start,
    {
        self.begin_scan_at(random_seed())
    }

    /// Records the outcome of probing the stream at `scan.idx` and says
    /// what to do next. A ready stream ends the scan; a stream whose probe
    /// failed is evicted, its place taken by the last stream.
    pub fn scan_step(&mut self, scan: &mut Scan, probe: Probe) -> (r: ScanStep)
        requires
            old(self).wf(),
            old(self).scan_ok(*old(scan)),
            old(scan).left > 0,
        ensures
            final(self).wf(),
            final(self).scan_ok(*final(scan)),
            probe == Probe::Ready ==> {
                &&& r == ScanStep::Found(old(self)@[old(scan).idx as int])
                &&& final(self)@ == old(self)@
                &&& *final(scan) == *old(scan)
            },
            probe == Probe::NotReady ==> {
                &&& final(self)@ == old(self)@
                &&& final(scan).idx == (old(scan).idx + 1) % (old(self)@.len() as int)
            },
            probe == Probe::Failed ==> {
                &&& final(self)@ == evict(old(self)@, old(scan).idx as int)
                &&& final(scan).idx == next_after_evict(
                    old(scan).idx,
                    old(scan).start,
                    final(self)@.len(),
                )
            },
            probe != Probe::Ready ==> {
                &&& final(scan).start == old(scan).start
                &&& final(scan).left == old(scan).left - 1
                &&& r == if final(scan).left == 0 {
                    ScanStep::Idle
                } else {
                    ScanStep::Check(final(scan).idx)
                }
            },
    {
        let n = self.len();
        if probe == Probe::Ready {
            let (a, _) = self.get_index(scan.idx).unwrap();
            return ScanStep::Found(a);
        }
        if probe == Probe::Failed {
            let ghost keys = self@;
            let _ = map_swap_remove_index(&mut self.streams, scan.idx);
            proof {
                lemma_evict_keeps_unique(keys, scan.idx as int);
            }
        }
        *scan = advance_scan(*scan, n, probe);
        if scan.left == 0 {
            ScanStep::Idle
        } else {
            ScanStep::Check(scan.idx)
        }
    }
}

/// When every probed stream is ready, a scan of `n` streams picks the one
/// at its seed's position modulo `n`; so over the `k * n` seeds `0` to
/// `k * n - 1`, the stream at position `i` is picked for each of the `k`
/// seeds `j * n + i` with `j < k`.
pub proof fn lemma_scan_start_covers(n: nat, k: nat, i: nat, j: nat)
    requires
        0 < n,
        i < n,
        j < k,
        k * n <= usize::MAX,
    ensures
        j * n + i < k * n,
        scan_start((j * n + i) as usize, n) == i,
{
    assert(j * n + i < k * n) by (nonlinear_arith)
        requires
            i < n,
            j < k,
    ;
    assert(n <= k * n) by (nonlinear_arith)
        requires
            0 < n,
            j < k,
    ;
    let seed = j * n + i;
    vstd::arithmetic::div_mod::lemma_mod_multiples_vanish(j as int, i as int, n as int);
    vstd::arithmetic::div_mod::lemma_small_mod(i, n);
    assert((n * j) == (j * n)) by (nonlinear_arith);
    assert(seed % n == i);
    assert((seed as usize) as int == seed);
    assert((n as usize) as int == n);
}

proof fn lemma_evict_keeps_unique(keys: Seq<PeerAddr>, i: int)
    requires
        keys.no_duplicates(),
        0 <= i < keys.len(),
    ensures
        evict(keys, i).no_duplicates(),
        evict(keys, i).len() == keys.len() - 1,
        forall|a: PeerAddr| #[trigger] evict(keys, i).contains(a) ==> keys.contains(a),
{
    let e = evict(keys, i);
    let last = keys.len() - 1;
    assert forall|a: int, b: int| 0 <= a < e.len() && 0 <= b < e.len() && a != b implies e[a]
        != e[b] by {
        let a0 = if a == i { last } else { a };
        let b0 = if b == i { last } else { b };
        assert(e[a] == keys[a0]);
        assert(e[b] == keys[b0]);
    }
    assert forall|a: PeerAddr| #[trigger] e.contains(a) implies keys.contains(a) by {
        let j = choose|j: int| 0 <= j < e.len() && e[j] == a;
        if j == i {
            assert(keys[last] == a);
        } else {
            assert(keys[j] == a);
        }
    }
}

} // verus!
