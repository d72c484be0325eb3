use vstd::prelude::*;
use crate::types::{extend_difficulty, BlockStatus, Byte32, CompactBlock, Header, HeaderView, PeerIndex};

verus! {

/// Limits fixed by consensus.
#[derive(Clone, Copy, Debug, PartialEq, Eq, Structural)]
pub struct Consensus {
    pub max_uncles_num: usize,
    pub max_block_proposals_limit: u64,
    pub median_time_block_count: usize,
}

/// One recorded status of a block.
#[derive(Clone, Copy, Debug, PartialEq, Eq, Structural)]
pub struct StatusEntry {
    pub hash: Byte32,
    pub status: BlockStatus,
}

/// The status of `h` in a log of status records: the latest record for
/// `h` wins, and a block never recorded is `Unknown`.
pub open spec fn status_in(v: Seq<StatusEntry>, h: Byte32) -> BlockStatus
    decreases v.len(),
{
    if v.len() == 0 {
        BlockStatus::Unknown
    } else if v.last().hash == h {
        v.last().status
    } else {
        status_in(v.drop_last(), h)
    }
}

/// The header view stored for `h` in an index; the latest one wins.
pub open spec fn header_in(v: Seq<HeaderView>, h: Byte32) -> Option<HeaderView>
    decreases v.len(),
{
    if v.len() == 0 {
        None
    } else if v.last().header.hash == h {
        Some(v.last())
    } else {
        header_in(v.drop_last(), h)
    }
}

pub proof fn lemma_header_in_push(v: Seq<HeaderView>, x: HeaderView)
    ensures
        forall|h: Byte32| #[trigger]
            header_in(v.push(x), h) == if x.header.hash == h {
                Some(x)
            } else {
                header_in(v, h)
            },
{
    assert(v.push(x).drop_last() =~= v);
}

/// A header found in an index is one of its entries.
proof fn lemma_header_in_entry(v: Seq<HeaderView>, h: Byte32)
    requires
        header_in(v, h) is Some,
    ensures
        exists|i: int| 0 <= i < v.len() && v[i] == header_in(v, h)->Some_0 && v[i].header.hash == h,
    decreases v.len(),
{
    if v.last().header.hash != h {
        lemma_header_in_entry(v.drop_last(), h);
        let i = choose|i: int|
            0 <= i < v.drop_last().len() && v.drop_last()[i] == header_in(v.drop_last(), h)->Some_0
                && v.drop_last()[i].header.hash == h;
        assert(v[i] == v.drop_last()[i]);
    } else {
        assert(v[v.len() - 1] == v.last());
    }
}

/// The view that `header` gets in the index `hs`: its parent's total
/// difficulty extended by its own.
pub open spec fn view_on(hs: Seq<HeaderView>, header: Header) -> HeaderView {
    HeaderView {
        header,
        total_difficulty: extend_difficulty(
            header_in(hs, header.parent_hash).unwrap().total_difficulty,
            header.difficulty,
        ),
    }
}

/// The status that recording `s` over `current` leaves: `BlockInvalid` is
/// terminal, anything else is replaced.
pub open spec fn next_status(current: BlockStatus, s: BlockStatus) -> BlockStatus {
    if current is BlockInvalid {
        BlockStatus::BlockInvalid
    } else {
        s
    }
}

/// Flags of a connection.
#[derive(Clone, Copy, Debug, PartialEq, Eq, Structural)]
pub struct PeerFlags {
    pub is_outbound: bool,
    pub is_protect: bool,
    pub is_whitelist: bool,
}

/// What the node knows of one peer.
#[derive(Clone, Copy, Debug, PartialEq, Eq, Structural)]
pub struct PeerState {
    pub peer: PeerIndex,
    pub peer_flags: PeerFlags,
    /// The best header the peer is known to have.
    pub best_known: Option<HeaderView>,
    /// Accumulated penalty; the network layer disconnects at its threshold.
    pub misbehavior: u32,
    /// Deadline of the running header sync, if one runs.
    pub headers_sync_timeout: Option<u64>,
}

/// The state of `p` in a registry; the latest entry wins.
pub open spec fn peer_in(v: Seq<PeerState>, p: PeerIndex) -> Option<PeerState>
    decreases v.len(),
{
    if v.len() == 0 {
        None
    } else if v.last().peer == p {
        Some(v.last())
    } else {
        peer_in(v.drop_last(), p)
    }
}

/// Replacing the latest entry of a peer replaces its state and no other.
proof fn lemma_peer_update(v: Seq<PeerState>, i: int, e: PeerState)
    requires
        0 <= i < v.len(),
        e.peer == v[i].peer,
        forall|j: int| i < j < v.len() ==> v[j].peer != v[i].peer,
    ensures
        forall|q: PeerIndex| #[trigger]
            peer_in(v.update(i, e), q) == if q == e.peer {
                Some(e)
            } else {
                peer_in(v, q)
            },
    decreases v.len(),
{
    let w = v.update(i, e);
    if i == v.len() - 1 {
        assert(w.drop_last() =~= v.drop_last());
        assert forall|q: PeerIndex| #[trigger]
            peer_in(w, q) == if q == e.peer {
                Some(e)
            } else {
                peer_in(v, q)
            } by {
            assert(w.last() == e);
        }
    } else {
        assert(w.drop_last() =~= v.drop_last().update(i, e));
        lemma_peer_update(v.drop_last(), i, e);
        assert forall|q: PeerIndex| #[trigger]
            peer_in(w, q) == if q == e.peer {
                Some(e)
            } else {
                peer_in(v, q)
            } by {
            assert(w.last() == v.last());
            assert(v.last().peer != e.peer);
            assert(peer_in(w.drop_last(), q) == peer_in(v.drop_last().update(i, e), q));
        }
    }
}

/// `misbehavior` raised by `score`, pinned at the largest value.
pub open spec fn add_misbehavior(misbehavior: u32, score: u32) -> u32 {
    if misbehavior + score > u32::MAX {
        u32::MAX
    } else {
        (misbehavior + score) as u32
    }
}

/// Whether `hv` would replace `best` as the best-known header.
pub open spec fn improves(best: Option<HeaderView>, hv: HeaderView) -> bool {
    match best {
        None => true,
        Some(b) => hv.total_difficulty > b.total_difficulty,
    }
}

/// A peer's state after a penalty of `score`.
pub open spec fn penalised(o: Option<PeerState>, score: u32) -> Option<PeerState> {
    match o {
        None => None,
        Some(s) => Some(PeerState { misbehavior: add_misbehavior(s.misbehavior, score), ..s }),
    }
}

/// A peer's state after `hv` is offered as its best-known header.
pub open spec fn offered_best(o: Option<PeerState>, hv: HeaderView) -> Option<PeerState> {
    match o {
        None => None,
        Some(s) => if improves(s.best_known, hv) {
            Some(PeerState { best_known: Some(hv), ..s })
        } else {
            Some(s)
        },
    }
}

/// A peer's state once its header sync is stopped.
pub open spec fn sync_stopped(o: Option<PeerState>) -> Option<PeerState> {
    match o {
        None => None,
        Some(s) => Some(PeerState { headers_sync_timeout: None, ..s }),
    }
}

/// `b` knows a best header at least as heavy as the one `a` knew.
pub open spec fn best_not_worse(a: Option<PeerState>, b: Option<PeerState>) -> bool {
    match a {
        None => true,
        Some(x) => match b {
            None => false,
            Some(y) => match x.best_known {
                None => true,
                Some(bx) => match y.best_known {
                    None => false,
                    Some(by) => by.total_difficulty >= bx.total_difficulty,
                },
            },
        },
    }
}

/// No peer's best-known header loses work from `s` to `t`.
pub open spec fn best_known_monotone(s: SyncShared, t: SyncShared) -> bool {
    forall|q: PeerIndex| #[trigger] best_not_worse(s.peer_of(q), t.peer_of(q))
}

/// Offering a header, adding a penalty or stopping the header sync never
/// lowers the work of a peer's best-known header.
pub proof fn lemma_peer_updates_keep_best(o: Option<PeerState>, hv: HeaderView, score: u32)
    ensures
        best_not_worse(o, o),
        best_not_worse(o, offered_best(o, hv)),
        best_not_worse(o, penalised(o, score)),
        best_not_worse(o, sync_stopped(o)),
{
}

pub proof fn lemma_best_not_worse_trans(a: Option<PeerState>, b: Option<PeerState>, c: Option<PeerState>)
    requires
        best_not_worse(a, b),
        best_not_worse(b, c),
    ensures
        best_not_worse(a, c),
{
}

pub proof fn lemma_monotone_trans(a: SyncShared, b: SyncShared, c: SyncShared)
    requires
        best_known_monotone(a, b),
        best_known_monotone(b, c),
    ensures
        best_known_monotone(a, c),
{
    assert forall|q: PeerIndex| #[trigger] best_not_worse(a.peer_of(q), c.peer_of(q)) by {
        assert(best_not_worse(a.peer_of(q), b.peer_of(q)));
        assert(best_not_worse(b.peer_of(q), c.peer_of(q)));
        lemma_best_not_worse_trans(a.peer_of(q), b.peer_of(q), c.peer_of(q));
    }
}

/// An outstanding compact-block request.
#[derive(Clone, Copy, Debug, PartialEq, Eq, Structural)]
pub struct InflightEntry {
    pub peer: PeerIndex,
    pub hash: Byte32,
}

/// Number of requests outstanding with `p`.
pub open spec fn count_peer(v: Seq<InflightEntry>, p: PeerIndex) -> nat
    decreases v.len(),
{
    if v.len() == 0 {
        0
    } else {
        count_peer(v.drop_last(), p) + if v.last().peer == p {
            1nat
        } else {
            0nat
        }
    }
}

/// No request is recorded twice, and both caps hold.
pub open spec fn inflight_wf(v: Seq<InflightEntry>, max_inflight: usize, per_peer: usize) -> bool {
    &&& v.no_duplicates()
    &&& v.len() <= max_inflight
    &&& forall|p: PeerIndex| #[trigger] count_peer(v, p) <= per_peer
}

/// A compact block that waits for missing pieces.
#[derive(Clone, Debug)]
pub struct PendingBlock {
    pub hash: Byte32,
    pub compact_block: CompactBlock,
}

/// What one peer was asked for, for one pending compact block.
#[derive(Clone, Debug)]
pub struct PendingPeer {
    pub hash: Byte32,
    pub peer: PeerIndex,
    pub missing_transactions: Vec<u32>,
    pub missing_uncles: Vec<u32>,
}

/// Whether `p` has been asked for pieces of the pending block `h`.
pub open spec fn pending_has(v: Seq<PendingPeer>, h: Byte32, p: PeerIndex) -> bool {
    exists|i: int| 0 <= i < v.len() && (#[trigger] v[i]).hash == h && v[i].peer == p
}

/// Whether the compact block `h` is pending.
pub open spec fn pending_block_in(v: Seq<PendingBlock>, h: Byte32) -> bool {
    exists|i: int| 0 <= i < v.len() && (#[trigger] v[i]).hash == h
}

proof fn lemma_pending_has_push(v: Seq<PendingPeer>, x: PendingPeer)
    ensures
        forall|h: Byte32, p: PeerIndex| #[trigger]
            pending_has(v.push(x), h, p) == (pending_has(v, h, p) || (x.hash == h && x.peer == p)),
{
    let w = v.push(x);
    assert forall|h: Byte32, p: PeerIndex| #[trigger]
        pending_has(w, h, p) == (pending_has(v, h, p) || (x.hash == h && x.peer == p)) by {
        if pending_has(v, h, p) {
            let i = choose|i: int| 0 <= i < v.len() && (#[trigger] v[i]).hash == h && v[i].peer == p;
            assert(w[i] == v[i]);
        }
        if x.hash == h && x.peer == p {
            assert(w[v.len() as int] == x);
        }
        if pending_has(w, h, p) {
            let i = choose|i: int| 0 <= i < w.len() && (#[trigger] w[i]).hash == h && w[i].peer == p;
            if i < v.len() {
                assert(v[i] == w[i]);
            }
        }
    }
}

proof fn lemma_pending_has_pop(v: Seq<PendingPeer>)
    requires
        v.len() > 0,
    ensures
        forall|h: Byte32, p: PeerIndex| #[trigger]
            pending_has(v, h, p) == (pending_has(v.drop_last(), h, p) || (v.last().hash == h
                && v.last().peer == p)),
{
    assert(v.drop_last().push(v.last()) =~= v);
    lemma_pending_has_push(v.drop_last(), v.last());
}

proof fn lemma_pending_block_push(v: Seq<PendingBlock>, x: PendingBlock)
    ensures
        forall|h: Byte32| #[trigger]
            pending_block_in(v.push(x), h) == (pending_block_in(v, h) || x.hash == h),
{
    let w = v.push(x);
    assert forall|h: Byte32| #[trigger]
        pending_block_in(w, h) == (pending_block_in(v, h) || x.hash == h) by {
        if pending_block_in(v, h) {
            let i = choose|i: int| 0 <= i < v.len() && (#[trigger] v[i]).hash == h;
            assert(w[i] == v[i]);
        }
        if x.hash == h {
            assert(w[v.len() as int] == x);
        }
        if pending_block_in(w, h) {
            let i = choose|i: int| 0 <= i < w.len() && (#[trigger] w[i]).hash == h;
            if i < v.len() {
                assert(v[i] == w[i]);
            }
        }
    }
}

proof fn lemma_pending_block_pop(v: Seq<PendingBlock>)
    requires
        v.len() > 0,
    ensures
        forall|h: Byte32| #[trigger]
            pending_block_in(v, h) == (pending_block_in(v.drop_last(), h) || v.last().hash == h),
{
    assert(v.drop_last().push(v.last()) =~= v);
    lemma_pending_block_push(v.drop_last(), v.last());
}

/// The shared state that every message handler reads and updates: the
/// header index, block statuses, the peer registry, the in-flight
/// requests and the cache of pending compact blocks.
pub struct SyncShared {
    pub consensus: Consensus,
    pub genesis_hash: Byte32,
    /// Tip of the active chain.
    pub tip: Header,
    /// Length of the current epoch, in blocks.
    pub epoch_length: u64,
    /// Whether the node is in initial block download.
    pub ibd: bool,
    pub headers: Vec<HeaderView>,
    pub statuses: Vec<StatusEntry>,
    /// The best header known across all peers.
    pub shared_best_header: HeaderView,
    pub peers: Vec<PeerState>,
    /// Outstanding compact-block requests, one entry per (peer, block).
    pub inflight: Vec<InflightEntry>,
    /// Cap on all outstanding requests.
    pub max_inflight: usize,
    /// Cap on the outstanding requests to one peer.
    pub per_peer_inflight: usize,
    /// Compact blocks waiting for missing pieces.
    pub pending_blocks: Vec<PendingBlock>,
    /// What each peer was asked for, per pending compact block.
    pub pending_peers: Vec<PendingPeer>,
    /// Hashes of the full blocks received so far.
    pub received: Vec<Byte32>,
}

impl SyncShared {
    /// The two states share configuration and chain tip.
    pub open spec fn same_setting(&self, o: SyncShared) -> bool {
        &&& self.consensus == o.consensus
        &&& self.genesis_hash == o.genesis_hash
        &&& self.tip == o.tip
        &&& self.epoch_length == o.epoch_length
        &&& self.ibd == o.ibd
        &&& self.max_inflight == o.max_inflight
        &&& self.per_peer_inflight == o.per_peer_inflight
    }

    pub open spec fn same_peers(&self, o: SyncShared) -> bool {
        self.peers@ == o.peers@
    }

    /// In-flight requests, pending compact blocks and received blocks agree.
    pub open spec fn same_requests(&self, o: SyncShared) -> bool {
        &&& self.inflight@ == o.inflight@
        &&& self.pending_blocks@ == o.pending_blocks@
        &&& self.pending_peers@ == o.pending_peers@
        &&& self.received@ == o.received@
    }

    /// Headers and statuses agree.
    pub open spec fn same_chain(&self, o: SyncShared) -> bool {
        &&& self.headers@ == o.headers@
        &&& self.statuses@ == o.statuses@
        &&& self.shared_best_header == o.shared_best_header
    }

    #[verifier::inline]
    pub open spec fn status_of(&self, h: Byte32) -> BlockStatus {
        status_in(self.statuses@, h)
    }

    #[verifier::inline]
    pub open spec fn header_of(&self, h: Byte32) -> Option<HeaderView> {
        header_in(self.headers@, h)
    }

    /// Every indexed header other than genesis has its parent indexed, and
    /// every header whose status reaches `HeaderValid` is indexed.
    pub open spec fn wf(&self) -> bool {
        &&& self.header_of(self.genesis_hash) is Some
        &&& forall|i: int|
            0 <= i < self.headers@.len() ==> (#[trigger] self.headers@[i]).header.hash
                == self.genesis_hash || self.header_of(self.headers@[i].header.parent_hash) is Some
        &&& forall|h: Byte32| #[trigger]
            self.status_of(h).spec_contains(BlockStatus::HeaderValid) ==> self.header_of(h) is Some
        &&& inflight_wf(self.inflight@, self.max_inflight, self.per_peer_inflight)
        &&& unique_blocks(self.pending_blocks@)
        &&& unique_records(self.pending_peers@)
    }

    pub fn get_block_status(&self, h: &Byte32) -> (r: BlockStatus)
        ensures
            r == self.status_of(*h),
    {
        let mut i: usize = self.statuses.len();
        assert(self.statuses@.take(i as int) =~= self.statuses@);
        while i > 0
            invariant
                i <= self.statuses@.len(),
                status_in(self.statuses@, *h) == status_in(self.statuses@.take(i as int), *h),
            decreases i,
        {
            let e = self.statuses[i - 1];
            assert(self.statuses@.take(i as int).drop_last() =~= self.statuses@.take(i - 1));
            if e.hash == *h {
                return e.status;
            }
            i = i - 1;
        }
        BlockStatus::Unknown
    }

    pub fn contains_block_status(&self, h: &Byte32, flag: BlockStatus) -> (r: bool)
        ensures
            r == self.status_of(*h).spec_contains(flag),
    {
        self.get_block_status(h).contains(flag)
    }

    /// Records status `s` for `h`, unless `h` is already known invalid.
    pub fn insert_block_status(&mut self, h: Byte32, s: BlockStatus)
        ensures
            forall|x: Byte32| #[trigger]
                final(self).status_of(x) == if x == h {
                    next_status(old(self).status_of(h), s)
                } else {
                    old(self).status_of(x)
                },
            final(self).statuses@ == if old(self).status_of(h) is BlockInvalid {
                old(self).statuses@
            } else {
                old(self).statuses@.push(StatusEntry { hash: h, status: s })
            },
            final(self).headers@ == old(self).headers@,
            final(self).shared_best_header == old(self).shared_best_header,
            final(self).same_setting(*old(self)),
            final(self).same_peers(*old(self)),
            final(self).same_requests(*old(self)),
    {
        let current = self.get_block_status(&h);
        if current.contains(BlockStatus::BlockInvalid) {
            return;
        }
        self.statuses.push(StatusEntry { hash: h, status: s });
        assert(self.statuses@.drop_last() =~= old(self).statuses@);
    }

    pub fn get_header_view(&self, h: &Byte32) -> (r: Option<HeaderView>)
        ensures
            r == self.header_of(*h),
    {
        let mut i: usize = self.headers.len();
        assert(self.headers@.take(i as int) =~= self.headers@);
        while i > 0
            invariant
                i <= self.headers@.len(),
                header_in(self.headers@, *h) == header_in(self.headers@.take(i as int), *h),
            decreases i,
        {
            let e = self.headers[i - 1];
            assert(self.headers@.take(i as int).drop_last() =~= self.headers@.take(i - 1));
            if e.header.hash == *h {
                return Some(e);
            }
            i = i - 1;
        }
        None
    }

    #[verifier::inline]
    pub open spec fn peer_of(&self, p: PeerIndex) -> Option<PeerState> {
        peer_in(self.peers@, p)
    }

    /// Position of the latest entry of `p` in the registry.
    fn find_peer(&self, p: PeerIndex) -> (r: Option<usize>)
        ensures
            r is None ==> self.peer_of(p) is None,
            r matches Some(i) ==> {
                &&& i < self.peers@.len()
                &&& self.peers@[i as int].peer == p
                &&& self.peer_of(p) == Some(self.peers@[i as int])
                &&& forall|j: int| i < j < self.peers@.len() ==> self.peers@[j].peer != p
            },
    {
        let mut i: usize = self.peers.len();
        assert(self.peers@.take(i as int) =~= self.peers@);
        while i > 0
            invariant
                i <= self.peers@.len(),
                peer_in(self.peers@, p) == peer_in(self.peers@.take(i as int), p),
                forall|j: int| i <= j < self.peers@.len() ==> self.peers@[j].peer != p,
            decreases i,
        {
            assert(self.peers@.take(i as int).drop_last() =~= self.peers@.take(i - 1));
            if self.peers[i - 1].peer == p {
                return Some(i - 1);
            }
            i = i - 1;
        }
        None
    }

    /// Replaces the latest entry of a peer.
    fn replace_peer(&mut self, i: usize, e: PeerState)
        requires
            i < old(self).peers@.len(),
            e.peer == old(self).peers@[i as int].peer,
            forall|j: int| i < j < old(self).peers@.len() ==> old(self).peers@[j].peer != e.peer,
        ensures
            forall|q: PeerIndex| #[trigger]
                final(self).peer_of(q) == if q == e.peer {
                    Some(e)
                } else {
                    old(self).peer_of(q)
                },
            final(self).same_setting(*old(self)),
            final(self).same_chain(*old(self)),
            final(self).same_requests(*old(self)),
    {
        proof {
            lemma_peer_update(self.peers@, i as int, e);
        }
        self.peers.set(i, e);
    }

    pub fn get_peer_state(&self, p: PeerIndex) -> (r: Option<PeerState>)
        ensures
            r == self.peer_of(p),
    {
        match self.find_peer(p) {
            Some(i) => Some(self.peers[i]),
            None => None,
        }
    }

    /// Registers a newly connected peer; a known peer is left as it is.
    pub fn add_peer(&mut self, p: PeerIndex, flags: PeerFlags)
        ensures
            forall|q: PeerIndex| #[trigger]
                final(self).peer_of(q) == if q == p && old(self).peer_of(p) is None {
                    Some(
                        PeerState {
                            peer: p,
                            peer_flags: flags,
                            best_known: None,
                            misbehavior: 0,
                            headers_sync_timeout: None,
                        },
                    )
                } else {
                    old(self).peer_of(q)
                },
            final(self).same_setting(*old(self)),
            final(self).same_chain(*old(self)),
            final(self).same_requests(*old(self)),
    {
        if self.find_peer(p).is_some() {
            return;
        }
        self.peers.push(
            PeerState {
                peer: p,
                peer_flags: flags,
                best_known: None,
                misbehavior: 0,
                headers_sync_timeout: None,
            },
        );
        assert(self.peers@.drop_last() =~= old(self).peers@);
    }

    /// Adds `score` to a peer's penalty, saturating at the largest value.
    pub fn misbehavior(&mut self, p: PeerIndex, score: u32)
        ensures
            forall|q: PeerIndex| #[trigger]
                final(self).peer_of(q) == if q == p {
                    penalised(old(self).peer_of(p), score)
                } else {
                    old(self).peer_of(q)
                },
            final(self).same_setting(*old(self)),
            final(self).same_chain(*old(self)),
            final(self).same_requests(*old(self)),
    {
        if let Some(i) = self.find_peer(p) {
            let s = self.peers[i];
            let e = PeerState { misbehavior: s.misbehavior.saturating_add(score), ..s };
            self.replace_peer(i, e);
        }
    }

    /// Makes `hv` the peer's best-known header if it has more work than
    /// the one known so far.
    pub fn may_set_best_known_header(&mut self, p: PeerIndex, hv: HeaderView)
        ensures
            forall|q: PeerIndex| #[trigger]
                final(self).peer_of(q) == if q == p {
                    offered_best(old(self).peer_of(p), hv)
                } else {
                    old(self).peer_of(q)
                },
            final(self).same_setting(*old(self)),
            final(self).same_chain(*old(self)),
            final(self).same_requests(*old(self)),
    {
        if let Some(i) = self.find_peer(p) {
            let s = self.peers[i];
            let better = match s.best_known {
                None => true,
                Some(b) => hv.total_difficulty > b.total_difficulty,
            };
            if better {
                self.replace_peer(i, PeerState { best_known: Some(hv), ..s });
            }
        }
    }

    pub fn get_best_known_header(&self, p: PeerIndex) -> (r: Option<HeaderView>)
        ensures
            r == match self.peer_of(p) {
                Some(s) => s.best_known,
                None => None,
            },
    {
        match self.get_peer_state(p) {
            Some(s) => s.best_known,
            None => None,
        }
    }

    /// Starts a header sync with `p` that must finish by `deadline`.
    pub fn start_headers_sync(&mut self, p: PeerIndex, deadline: u64)
        ensures
            forall|q: PeerIndex| #[trigger]
                final(self).peer_of(q) == if q == p {
                    match old(self).peer_of(p) {
                        None => None,
                        Some(s) => Some(PeerState { headers_sync_timeout: Some(deadline), ..s }),
                    }
                } else {
                    old(self).peer_of(q)
                },
            final(self).same_setting(*old(self)),
            final(self).same_chain(*old(self)),
            final(self).same_requests(*old(self)),
    {
        if let Some(i) = self.find_peer(p) {
            let s = self.peers[i];
            self.replace_peer(i, PeerState { headers_sync_timeout: Some(deadline), ..s });
        }
    }

    /// Cancels the header-sync timer of `p`.
    pub fn stop_headers_sync(&mut self, p: PeerIndex)
        ensures
            forall|q: PeerIndex| #[trigger]
                final(self).peer_of(q) == if q == p {
                    sync_stopped(old(self).peer_of(p))
                } else {
                    old(self).peer_of(q)
                },
            final(self).same_setting(*old(self)),
            final(self).same_chain(*old(self)),
            final(self).same_requests(*old(self)),
    {
        if let Some(i) = self.find_peer(p) {
            let s = self.peers[i];
            self.replace_peer(i, PeerState { headers_sync_timeout: None, ..s });
        }
    }

    /// The view that `header` gets in the index: its parent's total
    /// difficulty extended by its own.
    pub open spec fn view_on_parent(&self, header: Header) -> HeaderView {
        view_on(self.headers@, header)
    }

    /// A state with `genesis` as the only known header and as tip.
    pub fn new(
        consensus: Consensus,
        genesis: Header,
        epoch_length: u64,
        max_inflight: usize,
        per_peer_inflight: usize,
    ) -> (r: SyncShared)
        ensures
            r.wf(),
            r.consensus == consensus,
            r.genesis_hash == genesis.hash,
            r.tip == genesis,
            r.epoch_length == epoch_length,
            !r.ibd,
            r.max_inflight == max_inflight,
            r.per_peer_inflight == per_peer_inflight,
            r.headers@ == seq![HeaderView { header: genesis, total_difficulty: genesis.difficulty as u128 }],
            forall|h: Byte32| #[trigger]
                r.status_of(h) == if h == genesis.hash {
                    BlockStatus::BlockValid
                } else {
                    BlockStatus::Unknown
                },
            r.peers@.len() == 0,
            r.inflight@.len() == 0,
            r.pending_blocks@.len() == 0,
            r.pending_peers@.len() == 0,
            r.received@.len() == 0,
    {
        let gv = HeaderView { header: genesis, total_difficulty: genesis.difficulty as u128 };
        let r = SyncShared {
            consensus,
            genesis_hash: genesis.hash,
            tip: genesis,
            epoch_length,
            ibd: false,
            headers: vec![gv],
            statuses: vec![StatusEntry { hash: genesis.hash, status: BlockStatus::BlockValid }],
            shared_best_header: gv,
            peers: Vec::new(),
            inflight: Vec::new(),
            max_inflight,
            per_peer_inflight,
            pending_blocks: Vec::new(),
            pending_peers: Vec::new(),
            received: Vec::new(),
        };
        assert(r.headers@.drop_last() =~= Seq::<HeaderView>::empty());
        assert(r.statuses@.drop_last() =~= Seq::<StatusEntry>::empty());
        assert(r.headers@[0] == gv);
        assert(r.statuses@.last().hash == genesis.hash);
        assert forall|h: Byte32| #[trigger]
            r.status_of(h) == if h == genesis.hash {
                BlockStatus::BlockValid
            } else {
                BlockStatus::Unknown
            } by {
            assert(status_in(r.statuses@.drop_last(), h) == BlockStatus::Unknown);
        }
        assert forall|h: Byte32| #[trigger]
            r.status_of(h).spec_contains(BlockStatus::HeaderValid) implies r.header_of(h) is Some by {
            assert(status_in(r.statuses@.drop_last(), h) == BlockStatus::Unknown);
        }
        assert(r.header_of(genesis.hash) is Some);
        assert(r.inflight@.no_duplicates());
        assert forall|p: PeerIndex| #[trigger] count_peer(r.inflight@, p) <= per_peer_inflight by {}
        r
    }

    /// Moves the tip of the active chain.
    pub fn set_tip(&mut self, tip: Header, epoch_length: u64)
        requires
            old(self).wf(),
        ensures
            final(self).wf(),
            final(self).tip == tip,
            final(self).epoch_length == epoch_length,
            final(self).ibd == old(self).ibd,
            final(self).consensus == old(self).consensus,
            final(self).genesis_hash == old(self).genesis_hash,
            final(self).max_inflight == old(self).max_inflight,
            final(self).per_peer_inflight == old(self).per_peer_inflight,
            final(self).same_chain(*old(self)),
            final(self).same_peers(*old(self)),
            final(self).same_requests(*old(self)),
    {
        self.tip = tip;
        self.epoch_length = epoch_length;
    }

    /// Enters or leaves initial block download.
    pub fn set_initial_block_download(&mut self, ibd: bool)
        requires
            old(self).wf(),
        ensures
            final(self).wf(),
            final(self).ibd == ibd,
            final(self).tip == old(self).tip,
            final(self).epoch_length == old(self).epoch_length,
            final(self).consensus == old(self).consensus,
            final(self).genesis_hash == old(self).genesis_hash,
            final(self).max_inflight == old(self).max_inflight,
            final(self).per_peer_inflight == old(self).per_peer_inflight,
            final(self).same_chain(*old(self)),
            final(self).same_peers(*old(self)),
            final(self).same_requests(*old(self)),
    {
        self.ibd = ibd;
    }

    /// Adds a verified header to the index on top of its indexed parent,
    /// marks it `HeaderValid` (an invalid block stays invalid) and offers
    /// it as the best-known header of `peer` and of the node.
    pub fn insert_valid_header(&mut self, peer: PeerIndex, header: Header)
        requires
            old(self).wf(),
            old(self).header_of(header.parent_hash) is Some,
        ensures
            final(self).wf(),
            final(self).headers@ == old(self).headers@.push(old(self).view_on_parent(header)),
            final(self).statuses@ == if old(self).status_of(header.hash) is BlockInvalid {
                old(self).statuses@
            } else {
                old(self).statuses@.push(StatusEntry { hash: header.hash, status: BlockStatus::HeaderValid })
            },
            forall|x: Byte32| #[trigger]
                final(self).status_of(x) == if x == header.hash {
                    next_status(old(self).status_of(x), BlockStatus::HeaderValid)
                } else {
                    old(self).status_of(x)
                },
            forall|q: PeerIndex| #[trigger]
                final(self).peer_of(q) == if q == peer {
                    offered_best(old(self).peer_of(peer), old(self).view_on_parent(header))
                } else {
                    old(self).peer_of(q)
                },
            final(self).shared_best_header == if old(self).view_on_parent(header).total_difficulty
                > old(self).shared_best_header.total_difficulty {
                old(self).view_on_parent(header)
            } else {
                old(self).shared_best_header
            },
            final(self).same_setting(*old(self)),
            final(self).same_requests(*old(self)),
    {
        let parent = self.get_header_view(&header.parent_hash).unwrap();
        let hv = HeaderView::extend(&parent, header);
        self.headers.push(hv);
        assert(self.headers@.drop_last() =~= old(self).headers@);
        self.insert_block_status(header.hash, BlockStatus::HeaderValid);
        self.may_set_best_known_header(peer, hv);
        if hv.total_difficulty > self.shared_best_header.total_difficulty {
            self.shared_best_header = hv;
        }
        assert forall|x: Byte32| #[trigger]
            self.status_of(x).spec_contains(BlockStatus::HeaderValid) implies self.header_of(
                x,
            ) is Some by {
            if x != header.hash {
                assert(old(self).status_of(x).spec_contains(BlockStatus::HeaderValid));
            }
        }
    }

    #[verifier::inline]
    pub open spec fn inflight_has(&self, p: PeerIndex, h: Byte32) -> bool {
        self.inflight@.contains(InflightEntry { peer: p, hash: h })
    }

    /// Whether a compact-block request for `h` is outstanding with `p`.
    pub fn inflight_compact_contains(&self, p: PeerIndex, h: &Byte32) -> (r: bool)
        ensures
            r == self.inflight_has(p, *h),
    {
        let target = InflightEntry { peer: p, hash: *h };
        let mut i: usize = 0;
        while i < self.inflight.len()
            invariant
                i <= self.inflight@.len(),
                forall|j: int| 0 <= j < i ==> self.inflight@[j] != target,
                target == (InflightEntry { peer: p, hash: *h }),
            decreases self.inflight@.len() - i,
        {
            let e = self.inflight[i];
            if e == target {
                assert(self.inflight@[i as int] == target);
                assert(self.inflight@.contains(target));
                return true;
            }
            i = i + 1;
        }
        false
    }

    /// Number of requests outstanding with `p`.
    pub fn inflight_count_of(&self, p: PeerIndex) -> (r: usize)
        ensures
            r == count_peer(self.inflight@, p),
    {
        let mut n: usize = 0;
        let mut i: usize = 0;
        while i < self.inflight.len()
            invariant
                i <= self.inflight@.len(),
                n == count_peer(self.inflight@.take(i as int), p),
                n <= i,
            decreases self.inflight@.len() - i,
        {
            assert(self.inflight@.take(i + 1).drop_last() =~= self.inflight@.take(i as int));
            if self.inflight[i].peer == p {
                n = n + 1;
            }
            i = i + 1;
        }
        assert(self.inflight@.take(i as int) =~= self.inflight@);
        n
    }

    /// Whether a new request to `p` for `h` is admitted: it is not
    /// outstanding already and both caps leave room for it.
    pub open spec fn admits(&self, p: PeerIndex, h: Byte32) -> bool {
        &&& !self.inflight_has(p, h)
        &&& self.inflight@.len() < self.max_inflight
        &&& count_peer(self.inflight@, p) < self.per_peer_inflight
    }

    /// Reserves a compact-block request to `p` for `h`, if admitted.
    pub fn compact_reconstruct(&mut self, p: PeerIndex, h: Byte32) -> (r: bool)
        requires
            old(self).wf(),
        ensures
            final(self).wf(),
            r == old(self).admits(p, h),
            final(self).inflight@ == if r {
                old(self).inflight@.push(InflightEntry { peer: p, hash: h })
            } else {
                old(self).inflight@
            },
            final(self).same_setting(*old(self)),
            final(self).same_chain(*old(self)),
            final(self).same_peers(*old(self)),
            final(self).pending_blocks@ == old(self).pending_blocks@,
            final(self).pending_peers@ == old(self).pending_peers@,
            final(self).received@ == old(self).received@,
    {
        if self.inflight_compact_contains(p, &h) {
            return false;
        }
        if self.inflight.len() >= self.max_inflight {
            return false;
        }
        if self.inflight_count_of(p) >= self.per_peer_inflight {
            return false;
        }
        let e = InflightEntry { peer: p, hash: h };
        self.inflight.push(e);
        assert(self.inflight@.drop_last() =~= old(self).inflight@);
        assert forall|q: PeerIndex| #[trigger]
            count_peer(self.inflight@, q) <= self.per_peer_inflight by {
            assert(count_peer(old(self).inflight@, q) <= self.per_peer_inflight);
        }
        assert(self.inflight@.no_duplicates()) by {
            assert forall|i: int, j: int|
                0 <= i < self.inflight@.len() && 0 <= j < self.inflight@.len() && i != j implies
                self.inflight@[i] != self.inflight@[j] by {
                if i < old(self).inflight@.len() && j < old(self).inflight@.len() {
                } else if i < old(self).inflight@.len() {
                    assert(old(self).inflight@.contains(old(self).inflight@[i]));
                } else {
                    assert(old(self).inflight@.contains(old(self).inflight@[j]));
                }
            }
        }
        true
    }

    #[verifier::inline]
    pub open spec fn received_has(&self, h: Byte32) -> bool {
        self.received@.contains(h)
    }

    /// Records that the full block `h` arrived; true on its first arrival.
    pub fn new_block_received(&mut self, h: Byte32) -> (r: bool)
        requires
            old(self).wf(),
        ensures
            final(self).wf(),
            r == !old(self).received_has(h),
            final(self).received_has(h),
            forall|x: Byte32| x != h ==> final(self).received_has(x) == old(self).received_has(x),
            final(self).same_setting(*old(self)),
            final(self).same_chain(*old(self)),
            final(self).same_peers(*old(self)),
            final(self).inflight@ == old(self).inflight@,
            final(self).pending_blocks@ == old(self).pending_blocks@,
            final(self).pending_peers@ == old(self).pending_peers@,
    {
        let mut i: usize = 0;
        while i < self.received.len()
            invariant
                i <= self.received@.len(),
                forall|j: int| 0 <= j < i ==> self.received@[j] != h,
                *self == *old(self),
                old(self).wf(),
            decreases self.received@.len() - i,
        {
            let x = self.received[i];
            if x == h {
                assert(self.received@[i as int] == h);
                assert(self.received_has(h));
                return false;
            }
            i = i + 1;
        }
        self.received.push(h);
        assert(self.received@.last() == h);
        assert forall|x: Byte32| x != h implies self.received_has(x) == old(self).received_has(x) by {
            if old(self).received_has(x) {
                let j = choose|j: int| 0 <= j < old(self).received@.len() && old(self).received@[j] == x;
                assert(self.received@[j] == x);
            }
            if self.received_has(x) {
                let j = choose|j: int| 0 <= j < self.received@.len() && self.received@[j] == x;
                assert(old(self).received@[j] == x);
            }
        }
        true
    }

    #[verifier::inline]
    pub open spec fn pending_has_peer(&self, h: Byte32, p: PeerIndex) -> bool {
        pending_has(self.pending_peers@, h, p)
    }

    #[verifier::inline]
    pub open spec fn pending_has_block(&self, h: Byte32) -> bool {
        pending_block_in(self.pending_blocks@, h)
    }

    /// Whether `p` was already asked for pieces of the pending block `h`.
    pub fn is_pending(&self, h: &Byte32, p: PeerIndex) -> (r: bool)
        ensures
            r == self.pending_has_peer(*h, p),
    {
        let mut i: usize = 0;
        while i < self.pending_peers.len()
            invariant
                i <= self.pending_peers@.len(),
                forall|j: int|
                    0 <= j < i ==> !((#[trigger] self.pending_peers@[j]).hash == *h
                        && self.pending_peers@[j].peer == p),
            decreases self.pending_peers@.len() - i,
        {
            if self.pending_peers[i].hash == *h && self.pending_peers[i].peer == p {
                assert(self.pending_peers@[i as int].hash == *h);
                return true;
            }
            i = i + 1;
        }
        false
    }

    /// The header of the pending compact block `h`.
    pub fn pending_header(&self, h: &Byte32) -> (r: Option<Header>)
        ensures
            r is None <==> !self.pending_has_block(*h),
            r matches Some(x) ==> exists|i: int|
                0 <= i < self.pending_blocks@.len() && (#[trigger] self.pending_blocks@[i]).hash
                    == *h && self.pending_blocks@[i].compact_block.header == x,
    {
        let mut i: usize = 0;
        while i < self.pending_blocks.len()
            invariant
                i <= self.pending_blocks@.len(),
                forall|j: int| 0 <= j < i ==> (#[trigger] self.pending_blocks@[j]).hash != *h,
            decreases self.pending_blocks@.len() - i,
        {
            if self.pending_blocks[i].hash == *h {
                assert(self.pending_blocks@[i as int].hash == *h);
                return Some(self.pending_blocks[i].compact_block.header);
            }
            i = i + 1;
        }
        None
    }

    /// Records that `p` was asked for the listed pieces of compact block `h`,
    /// replacing an earlier record for the same pair and adding the block
    /// itself if it is not pending yet.
    pub fn insert_pending(
        &mut self,
        h: Byte32,
        compact_block: CompactBlock,
        p: PeerIndex,
        missing_transactions: Vec<u32>,
        missing_uncles: Vec<u32>,
    )
        requires
            old(self).wf(),
        ensures
            final(self).wf(),
            !old(self).pending_has_peer(h, p) ==> final(self).pending_peers@ == old(self).pending_peers@.push(
                PendingPeer { hash: h, peer: p, missing_transactions, missing_uncles },
            ),
            final(self).pending_peers@.last() == (PendingPeer { hash: h, peer: p, missing_transactions, missing_uncles }),
            old(self).pending_has_block(h) ==> final(self).pending_blocks@
                == old(self).pending_blocks@,
            !old(self).pending_has_block(h) ==> final(self).pending_blocks@
                == old(self).pending_blocks@.push(PendingBlock { hash: h, compact_block }),
            forall|x: Byte32, q: PeerIndex| #[trigger]
                final(self).pending_has_peer(x, q) == (old(self).pending_has_peer(x, q) || (x
                    == h && q == p)),
            forall|x: Byte32| #[trigger]
                final(self).pending_has_block(x) == (old(self).pending_has_block(x) || x == h),
            final(self).same_setting(*old(self)),
            final(self).same_chain(*old(self)),
            final(self).same_peers(*old(self)),
            final(self).inflight@ == old(self).inflight@,
            final(self).received@ == old(self).received@,
    {
        if self.pending_header(&h).is_none() {
            proof {
                lemma_pending_block_push(self.pending_blocks@, PendingBlock { hash: h, compact_block });
            }
            let ghost before = self.pending_blocks@;
            self.pending_blocks.push(PendingBlock { hash: h, compact_block });
            assert(unique_blocks(self.pending_blocks@)) by {
                assert forall|i: int, j: int| 0 <= i < j < self.pending_blocks@.len() implies
                    self.pending_blocks@[i].hash != self.pending_blocks@[j].hash by {
                    if j == before.len() {
                        assert(before[i] == self.pending_blocks@[i]);
                    } else {
                        assert(before[i] == self.pending_blocks@[i] && before[j] == self.pending_blocks@[j]);
                    }
                }
            }
        }
        if self.is_pending(&h, p) {
            let mut rest: Vec<PendingPeer> = Vec::new();
            std::mem::swap(&mut rest, &mut self.pending_peers);
            let kept = drop_records(rest, h, Some(p));
            self.pending_peers = kept;
        }
        let ghost before = self.pending_peers@;
        proof {
            lemma_pending_has_push(
                self.pending_peers@,
                PendingPeer { hash: h, peer: p, missing_transactions, missing_uncles },
            );
        }
        self.pending_peers.push(PendingPeer { hash: h, peer: p, missing_transactions, missing_uncles });
        proof {
            lemma_unique_push(before, self.pending_peers@.last());
        }
    }

    /// Drops the pending compact block `h` and every request made for it.
    pub fn remove_pending(&mut self, h: &Byte32)
        requires
            old(self).wf(),
        ensures
            final(self).wf(),
            forall|x: Byte32, q: PeerIndex| #[trigger]
                final(self).pending_has_peer(x, q) == (x != *h && old(self).pending_has_peer(x, q)),
            forall|x: Byte32| #[trigger]
                final(self).pending_has_block(x) == (x != *h && old(self).pending_has_block(x)),
            final(self).same_setting(*old(self)),
            final(self).same_chain(*old(self)),
            final(self).same_peers(*old(self)),
            final(self).inflight@ == old(self).inflight@,
            final(self).received@ == old(self).received@,
    {
        let mut rest: Vec<PendingPeer> = Vec::new();
        std::mem::swap(&mut rest, &mut self.pending_peers);
        let kept = drop_records(rest, *h, None);
        self.pending_peers = kept;
        let mut rest_b: Vec<PendingBlock> = Vec::new();
        std::mem::swap(&mut rest_b, &mut self.pending_blocks);
        let ghost all_b = rest_b@;
        let mut kept_b: Vec<PendingBlock> = Vec::new();
        while rest_b.len() > 0
            invariant
                forall|x: Byte32| #[trigger]
                    pending_block_in(all_b, x) == (pending_block_in(rest_b@, x) || pending_block_in(
                        kept_b@,
                        x,
                    )) || x == *h,
                forall|x: Byte32|
                    #[trigger] pending_block_in(kept_b@, x) ==> x != *h && pending_block_in(all_b, x),
                unique_blocks(rest_b@),
                unique_blocks(kept_b@),
                forall|x: Byte32| #[trigger] pending_block_in(kept_b@, x) ==> !pending_block_in(rest_b@, x),
            decreases rest_b@.len(),
        {
            proof {
                lemma_pending_block_pop(rest_b@);
            }
            let ghost r0 = rest_b@;
            let e = rest_b.pop().unwrap();
            proof {
                assert(r0.drop_last() =~= rest_b@);
                assert forall|i: int, j: int| 0 <= i < j < rest_b@.len() implies rest_b@[i].hash != rest_b@[j].hash by {
                    assert(rest_b@[i] == r0[i] && rest_b@[j] == r0[j]);
                }
                assert(!pending_block_in(rest_b@, e.hash)) by {
                    if pending_block_in(rest_b@, e.hash) {
                        let i = choose|i: int| 0 <= i < rest_b@.len() && (#[trigger] rest_b@[i]).hash == e.hash;
                        assert(r0[i] == rest_b@[i] && r0[r0.len() - 1] == e);
                    }
                }
                assert(pending_block_in(r0, e.hash)) by {
                    assert(r0[r0.len() - 1] == e);
                }
            }
            if e.hash != *h {
                proof {
                    lemma_pending_block_push(kept_b@, e);
                }
                let ghost k0 = kept_b@;
                kept_b.push(e);
                proof {
                    assert forall|i: int, j: int| 0 <= i < j < kept_b@.len() implies kept_b@[i].hash != kept_b@[j].hash by {
                        if j == k0.len() {
                            assert(kept_b@[i] == k0[i]);
                            assert(pending_block_in(k0, k0[i].hash));
                        } else {
                            assert(kept_b@[i] == k0[i] && kept_b@[j] == k0[j]);
                        }
                    }
                }
            }
        }
        self.pending_blocks = kept_b;
    }
}

/// No two records are for the same pair of block and peer.
pub open spec fn unique_records(v: Seq<PendingPeer>) -> bool {
    forall|i: int, j: int|
        0 <= i < j < v.len() ==> !(v[i].hash == v[j].hash && v[i].peer == v[j].peer)
}

/// No block is pending twice.
pub open spec fn unique_blocks(v: Seq<PendingBlock>) -> bool {
    forall|i: int, j: int| 0 <= i < j < v.len() ==> v[i].hash != v[j].hash
}

proof fn lemma_unique_push(v: Seq<PendingPeer>, e: PendingPeer)
    requires
        unique_records(v),
        !pending_has(v, e.hash, e.peer),
    ensures
        unique_records(v.push(e)),
{
    let w = v.push(e);
    assert forall|i: int, j: int| 0 <= i < j < w.len() implies !(w[i].hash == w[j].hash && w[i].peer == w[j].peer) by {
        assert(w[i] == v[i]);
        if j < v.len() {
            assert(w[j] == v[j]);
        }
    }
}

/// The records of `v` without those for block `h` (and peer `p`, if given).
fn drop_records(v: Vec<PendingPeer>, h: Byte32, p: Option<PeerIndex>) -> (r: Vec<PendingPeer>)
    requires
        unique_records(v@),
    ensures
        unique_records(r@),
        forall|x: Byte32, q: PeerIndex| #[trigger]
            pending_has(r@, x, q) == (pending_has(v@, x, q) && !(x == h && match p {
                Some(pp) => q == pp,
                None => true,
            })),
{
    let mut rest = v;
    let ghost all = rest@;
    let mut kept: Vec<PendingPeer> = Vec::new();
    while rest.len() > 0
        invariant
            forall|x: Byte32, q: PeerIndex| #[trigger]
                pending_has(all, x, q) == (pending_has(rest@, x, q) || pending_has(kept@, x, q))
                    || (x == h && match p {
                    Some(pp) => q == pp,
                    None => true,
                }),
            forall|x: Byte32, q: PeerIndex|
                #[trigger] pending_has(kept@, x, q) ==> !(x == h && match p {
                    Some(pp) => q == pp,
                    None => true,
                }) && pending_has(all, x, q),
            unique_records(rest@),
            unique_records(kept@),
            forall|x: Byte32, q: PeerIndex| #[trigger] pending_has(kept@, x, q) ==> !pending_has(rest@, x, q),
        decreases rest@.len(),
    {
        proof {
            lemma_pending_has_pop(rest@);
        }
        let ghost r0 = rest@;
        let e = rest.pop().unwrap();
        proof {
            assert(r0.drop_last() =~= rest@);
            assert forall|i: int, j: int| 0 <= i < j < rest@.len() implies !(rest@[i].hash == rest@[j].hash && rest@[i].peer == rest@[j].peer) by {
                assert(rest@[i] == r0[i] && rest@[j] == r0[j]);
            }
            assert(!pending_has(rest@, e.hash, e.peer)) by {
                if pending_has(rest@, e.hash, e.peer) {
                    let i = choose|i: int| 0 <= i < rest@.len() && (#[trigger] rest@[i]).hash == e.hash && rest@[i].peer == e.peer;
                    assert(r0[i] == rest@[i] && r0[r0.len() - 1] == e);
                }
            }
            assert(pending_has(r0, e.hash, e.peer)) by {
                assert(r0[r0.len() - 1] == e);
            }
        }
        let drop = e.hash == h && match p {
            Some(pp) => e.peer == pp,
            None => true,
        };
        if !drop {
            proof {
                lemma_pending_has_push(kept@, e);
                lemma_unique_push(kept@, e);
            }
            kept.push(e);
        }
    }
    kept
}

/// Every header in the index is the genesis or has its parent indexed
/// too: the header chain has no gaps.
pub proof fn lemma_indexed_header_has_parent(s: SyncShared, h: Byte32)
    requires
        s.wf(),
        s.header_of(h) is Some,
    ensures
        h == s.genesis_hash || s.header_of(s.header_of(h)->Some_0.header.parent_hash) is Some,
{
    lemma_header_in_entry(s.headers@, h);
    let i = choose|i: int|
        0 <= i < s.headers@.len() && s.headers@[i] == header_in(s.headers@, h)->Some_0
            && s.headers@[i].header.hash == h;
    assert(s.headers@[i].header.hash == s.genesis_hash || s.header_of(s.headers@[i].header.parent_hash) is Some);
}

/// At most one request is outstanding for any pair of peer and block,
/// and the global and per-peer caps hold.
pub proof fn lemma_inflight_unique(s: SyncShared)
    requires
        s.wf(),
    ensures
        forall|i: int, j: int|
            0 <= i < s.inflight@.len() && 0 <= j < s.inflight@.len() && i != j ==> s.inflight@[i] != s.inflight@[j],
        s.inflight@.len() <= s.max_inflight,
        forall|p: PeerIndex| #[trigger] count_peer(s.inflight@, p) <= s.per_peer_inflight,
{
}

/// A penalty that would overflow leaves the score at the largest value.
pub proof fn lemma_misbehavior_saturates(misbehavior: u32, score: u32)
    ensures
        misbehavior + score > u32::MAX ==> add_misbehavior(misbehavior, score) == u32::MAX,
        misbehavior + score <= u32::MAX ==> add_misbehavior(misbehavior, score) == misbehavior + score,
        add_misbehavior(misbehavior, score) >= misbehavior,
{
}

/// Stopping the header sync twice is stopping it once.
pub proof fn lemma_sync_stop_idempotent(o: Option<PeerState>)
    ensures
        sync_stopped(sync_stopped(o)) == sync_stopped(o),
        sync_stopped(o) matches Some(st) ==> st.headers_sync_timeout is None,
{
}

} // verus!
