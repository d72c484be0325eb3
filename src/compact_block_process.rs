use vstd::prelude::*;
use crate::error::Error;
use crate::message::{Action, Outcome};
use crate::headers_process::invalid_kept;
use crate::shared::{best_known_monotone, lemma_header_in_push, next_status, offered_best, InflightEntry, PendingBlock, SyncShared};
use crate::status::{Status, StatusCode};
use crate::types::{
    short_id_of, Block, BlockStatus, Byte32, CompactBlock, Header, HeaderView, PeerIndex, Transaction,
};

verus! {

/// The filled-in body of a compact block.
#[derive(Clone, Debug)]
pub struct BlockBody {
    pub transactions: Vec<Transaction>,
    pub uncles: Vec<Header>,
}

/// What block reconstruction made of a compact block.
#[derive(Debug)]
pub enum ReconstructionResult {
    /// Every piece was found and the transactions root matches.
    Block(BlockBody),
    /// The transactions and uncles at these positions are missing.
    Missing(Vec<usize>, Vec<usize>),
    /// Every piece was found but the transactions root differs: a
    /// fingerprint matched the wrong transaction.
    Collided,
    /// Reconstruction failed outright.
    Error(Status),
}

/// Number of transactions of the full block, if it fits in `usize`.
pub open spec fn txs_len_of(cb: CompactBlock) -> int {
    (cb.short_ids@.len() + cb.prefilled_transactions@.len()) as int
}

/// The prefilled transactions start with the cellbase at position 0, go
/// up strictly, and stay inside the block.
pub open spec fn prefilled_ok(cb: CompactBlock) -> bool {
    let p = cb.prefilled_transactions@;
    &&& p.len() > 0
    &&& p[0].index == 0
    &&& forall|i: int| 0 <= i < p.len() - 1 ==> (#[trigger] p[i]).index < p[i + 1].index
    &&& p.last().index < txs_len_of(cb)
}

/// No fingerprint appears twice, and none is that of a prefilled
/// transaction.
pub open spec fn short_ids_ok(cb: CompactBlock) -> bool {
    let s = cb.short_ids@;
    let p = cb.prefilled_transactions@;
    &&& forall|i: int, j: int| 0 <= i < j < s.len() ==> s[i] != s[j]
    &&& forall|i: int, j: int|
        0 <= i < s.len() && 0 <= j < p.len() ==> s[i] != short_id_of(p[j].transaction.hash)
}

pub open spec fn structure_ok(cb: CompactBlock) -> bool {
    &&& txs_len_of(cb) <= usize::MAX
    &&& prefilled_ok(cb)
    &&& short_ids_ok(cb)
}

/// Structural checks of a compact block.
pub struct CompactBlockVerifier;

impl CompactBlockVerifier {
    pub fn verify(cb: &CompactBlock) -> (r: Result<(), Status>)
        ensures
            r is Ok <==> structure_ok(*cb),
            r matches Err(st) ==> st.code is ProtocolMessageIsMalformed,
    {
        let txs_len = match cb.short_ids.len().checked_add(cb.prefilled_transactions.len()) {
            Some(n) => n,
            None => return Err(Status::new(StatusCode::ProtocolMessageIsMalformed)),
        };
        let p = &cb.prefilled_transactions;
        if p.len() == 0 || p[0].index != 0 {
            return Err(Status::new(StatusCode::ProtocolMessageIsMalformed));
        }
        let mut i: usize = 1;
        while i < p.len()
            invariant
                p@ == cb.prefilled_transactions@,
                1 <= i <= p@.len(),
                forall|k: int| 0 <= k < i - 1 ==> (#[trigger] p@[k]).index < p@[k + 1].index,
            decreases p@.len() - i,
        {
            if p[i - 1].index >= p[i].index {
                assert(!(p@[(i - 1) as int].index < p@[(i - 1) + 1].index));
                return Err(Status::new(StatusCode::ProtocolMessageIsMalformed));
            }
            i = i + 1;
        }
        if p[p.len() - 1].index as usize >= txs_len {
            return Err(Status::new(StatusCode::ProtocolMessageIsMalformed));
        }
        let s = &cb.short_ids;
        let mut a: usize = 0;
        while a < s.len()
            invariant
                p@ == cb.prefilled_transactions@,
                s@ == cb.short_ids@,
                a <= s@.len(),
                forall|x: int, y: int| 0 <= x < a && x < y < s@.len() ==> s@[x] != s@[y],
                forall|x: int, y: int|
                    0 <= x < a && 0 <= y < p@.len() ==> s@[x] != short_id_of(p@[y].transaction.hash),
            decreases s@.len() - a,
        {
            let mut b: usize = a + 1;
            while b < s.len()
                invariant
                    s@ == cb.short_ids@,
                    a < b <= s@.len(),
                    forall|y: int| a < y < b ==> s@[a as int] != s@[y],
                decreases s@.len() - b,
            {
                if s[a] == s[b] {
                    assert(s@[a as int] == s@[b as int]);
                    return Err(Status::new(StatusCode::ProtocolMessageIsMalformed));
                }
                b = b + 1;
            }
            let mut c: usize = 0;
            while c < p.len()
                invariant
                    p@ == cb.prefilled_transactions@,
                    s@ == cb.short_ids@,
                    a < s@.len(),
                    c <= p@.len(),
                    forall|y: int| 0 <= y < c ==> s@[a as int] != short_id_of(p@[y].transaction.hash),
                decreases p@.len() - c,
            {
                if s[a] == p[c].transaction.proposal_short_id() {
                    assert(s@[a as int] == short_id_of(p@[c as int].transaction.hash));
                    return Err(Status::new(StatusCode::ProtocolMessageIsMalformed));
                }
                c = c + 1;
            }
            a = a + 1;
        }
        Ok(())
    }
}

/// The lowest block number still worth relaying: the tip less one epoch.
pub open spec fn lowest_number(s: SyncShared) -> int {
    if s.tip.number >= s.epoch_length {
        s.tip.number - s.epoch_length
    } else {
        0
    }
}

/// Where the gates before reconstruction send a compact block: `None`
/// when it passes them all, else the status it ends with.
pub open spec fn gate_code(s: SyncShared, cb: CompactBlock, peer: PeerIndex, verdict: Result<(), Error>) -> Option<StatusCode> {
    let h = cb.header;
    if cb.uncles@.len() > s.consensus.max_uncles_num || cb.proposals@.len() > s.consensus.max_block_proposals_limit {
        Some(StatusCode::ProtocolMessageIsMalformed)
    } else if lowest_number(s) > h.number {
        Some(StatusCode::CompactBlockIsStaled)
    } else if s.status_of(h.hash).spec_contains(BlockStatus::BlockStored) {
        Some(StatusCode::CompactBlockAlreadyStored)
    } else if s.status_of(h.hash).spec_contains(BlockStatus::BlockInvalid) {
        Some(StatusCode::BlockIsInvalid)
    } else if s.header_of(h.parent_hash) is None {
        Some(StatusCode::CompactBlockRequiresParent)
    } else if s.inflight_has(peer, h.hash) {
        Some(StatusCode::CompactBlockIsAlreadyInFlight)
    } else if s.pending_has_peer(h.hash, peer) {
        Some(StatusCode::CompactBlockIsAlreadyPending)
    } else if verdict is Err {
        if verdict->Err_0.spec_is_too_new() {
            Some(StatusCode::Ignored)
        } else {
            Some(StatusCode::CompactBlockHasInvalidHeader)
        }
    } else if !structure_ok(cb) {
        Some(StatusCode::ProtocolMessageIsMalformed)
    } else {
        None
    }
}

/// The status a compact block ends with.
pub open spec fn compact_code(
    s: SyncShared,
    cb: CompactBlock,
    peer: PeerIndex,
    verdict: Result<(), Error>,
    recon: ReconstructionResult,
) -> StatusCode {
    match gate_code(s, cb, peer, verdict) {
        Some(c) => c,
        None => match recon {
            ReconstructionResult::Block(_) => StatusCode::OK,
            ReconstructionResult::Error(st) => st.code,
            ReconstructionResult::Missing(_, _) => if !s.admits(peer, cb.header.hash) {
                StatusCode::BlocksInFlightReachLimit
            } else {
                StatusCode::CompactBlockRequiresFreshTransactions
            },
            ReconstructionResult::Collided => if !s.admits(peer, cb.header.hash) {
                StatusCode::BlocksInFlightReachLimit
            } else {
                StatusCode::CompactBlockMeetsShortIdsCollision
            },
        },
    }
}

/// Positions `0 .. n` as wire indexes.
pub open spec fn all_indexes(n: int) -> Seq<u32> {
    Seq::new(n as nat, |i: int| i as u32)
}

pub open spec fn as_indexes(v: Seq<usize>) -> Seq<u32> {
    v.map_values(|i: usize| i as u32)
}

/// The transactions to ask for after reconstruction: the missing ones, or
/// on a collision every transaction of the block.
pub open spec fn requested_transactions(cb: CompactBlock, recon: ReconstructionResult) -> Seq<u32> {
    match recon {
        ReconstructionResult::Missing(t, _) => as_indexes(t@),
        _ => all_indexes(txs_len_of(cb)),
    }
}

/// The uncles to ask for after reconstruction; none on a collision.
pub open spec fn requested_uncles(recon: ReconstructionResult) -> Seq<u32> {
    match recon {
        ReconstructionResult::Missing(_, u) => as_indexes(u@),
        _ => Seq::empty(),
    }
}

/// Looks headers up for the header verifier of a compact block: pending
/// compact blocks first, so that siblings can chain, then the index.
pub struct CompactBlockMedianTimeView {
    pub median_block_count: u64,
}

impl CompactBlockMedianTimeView {
    pub fn new(shared: &SyncShared) -> (r: CompactBlockMedianTimeView)
        ensures
            r.median_block_count == shared.consensus.median_time_block_count as u64,
    {
        CompactBlockMedianTimeView { median_block_count: shared.consensus.median_time_block_count as u64 }
    }

    pub fn median_block_count(&self) -> (r: u64)
        ensures
            r == self.median_block_count,
    {
        self.median_block_count
    }

    pub fn get_header(&self, shared: &SyncShared, hash: &Byte32) -> (r: Option<Header>)
        ensures
            shared.pending_has_block(*hash) ==> r is Some && exists|i: int|
                0 <= i < shared.pending_blocks@.len() && (#[trigger] shared.pending_blocks@[i]).hash == *hash
                    && shared.pending_blocks@[i].compact_block.header == r->Some_0,
            !shared.pending_has_block(*hash) ==> r == match shared.header_of(*hash) {
                Some(v) => Some(v.header),
                None => None,
            },
    {
        match shared.pending_header(hash) {
            Some(h) => Some(h),
            None => match shared.get_header_view(hash) {
                Some(v) => Some(v.header),
                None => None,
            },
        }
    }
}

/// Converts positions to wire indexes.
fn to_indexes(v: &Vec<usize>) -> (r: Vec<u32>)
    ensures
        r@ == as_indexes(v@),
{
    let mut r: Vec<u32> = Vec::new();
    let mut i: usize = 0;
    while i < v.len()
        invariant
            i <= v@.len(),
            r@ == as_indexes(v@.take(i as int)),
        decreases v@.len() - i,
    {
        r.push(v[i] as u32);
        i = i + 1;
        assert(as_indexes(v@.take(i as int)) =~= as_indexes(v@.take(i - 1)).push(v@[i - 1] as u32));
    }
    assert(v@.take(i as int) =~= v@);
    r
}

/// Positions `0 .. n` as wire indexes.
fn indexes_up_to(n: usize) -> (r: Vec<u32>)
    ensures
        r@ == all_indexes(n as int),
{
    let mut r: Vec<u32> = Vec::new();
    let mut i: usize = 0;
    while i < n
        invariant
            i <= n,
            r@ == all_indexes(i as int),
        decreases n - i,
    {
        r.push(i as u32);
        i = i + 1;
        assert(all_indexes(i as int) =~= all_indexes(i - 1).push((i - 1) as u32));
    }
    r
}

fn done(code: StatusCode, actions: Vec<Action>) -> (r: Outcome)
    ensures
        r.status.code == code,
        r.actions@ == actions@,
{
    Outcome { status: Status::new(code), actions }
}

/// Handles a `CompactBlock` message from one peer.
pub struct CompactBlockProcess {
    pub compact_block: CompactBlock,
    pub peer: PeerIndex,
}

impl CompactBlockProcess {
    pub fn new(compact_block: CompactBlock, peer: PeerIndex) -> (r: CompactBlockProcess)
        ensures
            r.compact_block == compact_block,
            r.peer == peer,
    {
        CompactBlockProcess { compact_block, peer }
    }

    /// Runs the compact block through the gates, then acts on
    /// `reconstruction`. `verdict` is what the header verifier said of the
    /// header, resolving headers through `CompactBlockMedianTimeView`.
    pub fn execute(self, shared: &mut SyncShared, verdict: Result<(), Error>, reconstruction: ReconstructionResult) -> (r: Outcome)
        requires
            old(shared).wf(),
        ensures
            final(shared).wf(),
            r.status.code == compact_code(*old(shared), self.compact_block, self.peer, verdict, reconstruction),
            invalid_kept(*old(shared), *final(shared)),
            best_known_monotone(*old(shared), *final(shared)),
            final(shared).same_setting(*old(shared)),
            final(shared).received@ == old(shared).received@,
            gate_code(*old(shared), self.compact_block, self.peer, verdict) matches Some(c) ==> {
                &&& final(shared).headers@ == old(shared).headers@
                &&& final(shared).shared_best_header == old(shared).shared_best_header
                &&& final(shared).same_requests(*old(shared))
                &&& c is CompactBlockHasInvalidHeader ==> forall|x: Byte32| #[trigger]
                    final(shared).status_of(x) == if x == self.compact_block.header.hash {
                        next_status(old(shared).status_of(x), BlockStatus::BlockInvalid)
                    } else {
                        old(shared).status_of(x)
                    }
                &&& !(c is CompactBlockHasInvalidHeader) ==> final(shared).statuses@ == old(shared).statuses@
                &&& c is CompactBlockAlreadyStored ==> forall|q: PeerIndex| #[trigger]
                    final(shared).peer_of(q) == if q == self.peer && old(shared).header_of(self.compact_block.header.parent_hash) is Some {
                        offered_best(old(shared).peer_of(q), old(shared).view_on_parent(self.compact_block.header))
                    } else {
                        old(shared).peer_of(q)
                    }
                &&& !(c is CompactBlockAlreadyStored) ==> final(shared).same_peers(*old(shared))
                &&& r.actions@ == if c is CompactBlockRequiresParent {
                    seq![Action::GetHeaders { peer: self.peer, anchor: old(shared).tip.hash }]
                } else {
                    Seq::<Action>::empty()
                }
            },
            gate_code(*old(shared), self.compact_block, self.peer, verdict) is None ==> {
                let hash = self.compact_block.header.hash;
                let view = old(shared).view_on_parent(self.compact_block.header);
                &&& final(shared).headers@ == old(shared).headers@.push(view)
                &&& final(shared).shared_best_header == if view.total_difficulty
                    > old(shared).shared_best_header.total_difficulty {
                    view
                } else {
                    old(shared).shared_best_header
                }
                &&& forall|x: Byte32| #[trigger]
                    final(shared).status_of(x) == if x == hash {
                        next_status(old(shared).status_of(x), BlockStatus::HeaderValid)
                    } else {
                        old(shared).status_of(x)
                    }
                &&& forall|q: PeerIndex| #[trigger]
                    final(shared).peer_of(q) == if q == self.peer {
                        offered_best(old(shared).peer_of(q), view)
                    } else {
                        old(shared).peer_of(q)
                    }
                &&& r.actions@.len() >= 1
                &&& r.actions@[0] matches Action::GetBlockProposal { peer, block_hash, proposals }
                    && peer == self.peer && block_hash == hash && proposals@ == self.compact_block.proposals@
                &&& reconstruction matches ReconstructionResult::Block(body) ==> {
                    &&& final(shared).inflight@ == old(shared).inflight@
                    &&& forall|x: Byte32, q: PeerIndex| #[trigger]
                        final(shared).pending_has_peer(x, q) == (x != hash && old(shared).pending_has_peer(x, q))
                    &&& forall|x: Byte32| #[trigger]
                        final(shared).pending_has_block(x) == (x != hash && old(shared).pending_has_block(x))
                    &&& r.actions@.len() == 2
                    &&& r.actions@[1] matches Action::AcceptBlock { peer, block }
                        && peer == self.peer && block.header == self.compact_block.header
                        && block.transactions@ == body.transactions@ && block.uncles@ == body.uncles@
                        && block.proposals@ == self.compact_block.proposals@
                }
                &&& reconstruction is Error ==> final(shared).same_requests(*old(shared)) && r.actions@.len() == 1
                &&& (reconstruction is Missing || reconstruction is Collided) ==> {
                    &&& final(shared).pending_peers@.drop_last() == old(shared).pending_peers@
                    &&& final(shared).pending_peers@.len() == old(shared).pending_peers@.len() + 1
                    &&& final(shared).pending_peers@.last().hash == hash
                    &&& final(shared).pending_peers@.last().peer == self.peer
                    &&& final(shared).pending_peers@.last().missing_transactions@
                        == requested_transactions(self.compact_block, reconstruction)
                    &&& final(shared).pending_peers@.last().missing_uncles@ == requested_uncles(reconstruction)
                    &&& old(shared).pending_has_block(hash) ==> final(shared).pending_blocks@ == old(shared).pending_blocks@
                    &&& !old(shared).pending_has_block(hash) ==> final(shared).pending_blocks@
                        == old(shared).pending_blocks@.push(PendingBlock { hash, compact_block: self.compact_block })
                    &&& forall|x: Byte32, q: PeerIndex| #[trigger]
                        final(shared).pending_has_peer(x, q) == (old(shared).pending_has_peer(x, q) || (x == hash && q == self.peer))
                    &&& forall|x: Byte32| #[trigger]
                        final(shared).pending_has_block(x) == (old(shared).pending_has_block(x) || x == hash)
                    &&& final(shared).inflight@ == if old(shared).admits(self.peer, hash) {
                        old(shared).inflight@.push(InflightEntry { peer: self.peer, hash })
                    } else {
                        old(shared).inflight@
                    }
                    &&& !old(shared).admits(self.peer, hash) ==> r.actions@.len() == 1
                    &&& old(shared).admits(self.peer, hash) ==> {
                        &&& r.actions@.len() == 2
                        &&& r.actions@[1] matches Action::GetBlockTransactions { peer, block_hash, indexes, uncle_indexes }
                            && peer == self.peer && block_hash == hash
                            && indexes@ == requested_transactions(self.compact_block, reconstruction)
                            && uncle_indexes@ == requested_uncles(reconstruction)
                    }
                }
            },
    {
        let cb = self.compact_block;
        let peer = self.peer;
        if cb.uncles.len() > shared.consensus.max_uncles_num
            || cb.proposals.len() as u128 > shared.consensus.max_block_proposals_limit as u128 {
            return done(StatusCode::ProtocolMessageIsMalformed, Vec::new());
        }
        let header = cb.header;
        let hash = header.hash;
        let lowest = shared.tip.number.saturating_sub(shared.epoch_length);
        if lowest > header.number {
            return done(StatusCode::CompactBlockIsStaled, Vec::new());
        }
        let status = shared.get_block_status(&hash);
        if status.contains(BlockStatus::BlockStored) {
            if let Some(parent) = shared.get_header_view(&header.parent_hash) {
                let hv = HeaderView::extend(&parent, header);
                shared.may_set_best_known_header(peer, hv);
            }
            return done(StatusCode::CompactBlockAlreadyStored, Vec::new());
        } else if status.contains(BlockStatus::BlockInvalid) {
            return done(StatusCode::BlockIsInvalid, Vec::new());
        }
        if shared.get_header_view(&header.parent_hash).is_none() {
            let mut actions: Vec<Action> = Vec::new();
            actions.push(Action::GetHeaders { peer, anchor: shared.tip.hash });
            return done(StatusCode::CompactBlockRequiresParent, actions);
        }
        if shared.inflight_compact_contains(peer, &hash) {
            return done(StatusCode::CompactBlockIsAlreadyInFlight, Vec::new());
        }
        if shared.is_pending(&hash, peer) {
            return done(StatusCode::CompactBlockIsAlreadyPending, Vec::new());
        }
        if let Err(e) = verdict {
            if e.is_too_new() {
                return done(StatusCode::Ignored, Vec::new());
            }
            shared.insert_block_status(hash, BlockStatus::BlockInvalid);
            return done(StatusCode::CompactBlockHasInvalidHeader, Vec::new());
        }
        if CompactBlockVerifier::verify(&cb).is_err() {
            return done(StatusCode::ProtocolMessageIsMalformed, Vec::new());
        }
        shared.insert_valid_header(peer, header);
        let mut actions: Vec<Action> = Vec::new();
        actions.push(Action::GetBlockProposal { peer, block_hash: hash, proposals: cb.proposals.clone() });
        assert(cb.proposals@ =~= actions@[0]->GetBlockProposal_proposals@);
        let txs_len = cb.short_ids.len() + cb.prefilled_transactions.len();
        let (missing_transactions, missing_uncles, collision) = match reconstruction {
            ReconstructionResult::Block(body) => {
                shared.remove_pending(&hash);
                let block = Block {
                    header,
                    transactions: body.transactions,
                    uncles: body.uncles,
                    proposals: cb.proposals,
                };
                actions.push(Action::AcceptBlock { peer, block });
                return done(StatusCode::OK, actions);
            },
            ReconstructionResult::Error(st) => {
                return done(st.code, actions);
            },
            ReconstructionResult::Missing(t, u) => (to_indexes(&t), to_indexes(&u), false),
            ReconstructionResult::Collided => (indexes_up_to(txs_len), Vec::new(), true),
        };
        let txs_copy = missing_transactions.clone();
        let uncles_copy = missing_uncles.clone();
        assert(txs_copy@ =~= missing_transactions@);
        assert(uncles_copy@ =~= missing_uncles@);
        shared.insert_pending(hash, cb, peer, txs_copy, uncles_copy);
        if !shared.compact_reconstruct(peer, hash) {
            return done(StatusCode::BlocksInFlightReachLimit, actions);
        }
        actions.push(Action::GetBlockTransactions {
            peer,
            block_hash: hash,
            indexes: missing_transactions,
            uncle_indexes: missing_uncles,
        });
        if collision {
            done(StatusCode::CompactBlockMeetsShortIdsCollision, actions)
        } else {
            done(StatusCode::CompactBlockRequiresFreshTransactions, actions)
        }
    }
}

/// A compact block that passed every gate and left a request for its
/// missing pieces with `peer` stops at the duplicate gates when the same
/// peer sends it again, so the second handling changes nothing. The
/// requirements on `s1` are what `execute` guarantees of the state after
/// the first handling.
pub proof fn lemma_compact_block_twice(
    s0: SyncShared,
    s1: SyncShared,
    cb: CompactBlock,
    peer: PeerIndex,
    first_verdict: Result<(), Error>,
    second_verdict: Result<(), Error>,
    second_reconstruction: ReconstructionResult,
)
    requires
        s0.wf(),
        gate_code(s0, cb, peer, first_verdict) is None,
        s1.same_setting(s0),
        s1.headers@ == s0.headers@.push(s0.view_on_parent(cb.header)),
        forall|x: Byte32| #[trigger]
            s1.status_of(x) == if x == cb.header.hash {
                next_status(s0.status_of(x), BlockStatus::HeaderValid)
            } else {
                s0.status_of(x)
            },
        s1.pending_has_peer(cb.header.hash, peer),
    ensures
        gate_code(s1, cb, peer, second_verdict) == Some(StatusCode::CompactBlockIsAlreadyInFlight)
            || gate_code(s1, cb, peer, second_verdict) == Some(StatusCode::CompactBlockIsAlreadyPending),
        compact_code(s1, cb, peer, second_verdict, second_reconstruction) is CompactBlockIsAlreadyInFlight
            || compact_code(s1, cb, peer, second_verdict, second_reconstruction) is CompactBlockIsAlreadyPending,
{
    lemma_header_in_push(s0.headers@, s0.view_on_parent(cb.header));
    assert(s1.status_of(cb.header.hash) == BlockStatus::HeaderValid);
    assert(s1.header_of(cb.header.parent_hash) is Some);
}

} // verus!
