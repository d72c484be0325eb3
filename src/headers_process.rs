use vstd::prelude::*;
use crate::error::{Error, UnknownParentError};
use crate::message::Action;
use crate::status::Status;
use crate::shared::{
    add_misbehavior, best_known_monotone, best_not_worse, header_in, lemma_header_in_push, status_in,
    view_on, StatusEntry,
    lemma_monotone_trans, lemma_peer_updates_keep_best, next_status, offered_best, penalised,
    sync_stopped, PeerFlags, PeerState, SyncShared,
};
use crate::types::{BlockStatus, Byte32, Header, HeaderView, PeerIndex};

verus! {

/// What acceptance concluded of a header.
#[derive(Clone, Copy, Debug, PartialEq, Eq, Structural)]
pub enum ValidationState {
    Valid,
    /// Not valid now, but it may become valid later.
    TemporaryInvalid,
    Invalid,
}

impl Default for ValidationState {
    fn default() -> (r: ValidationState)
        ensures
            r == ValidationState::Valid,
    {
        ValidationState::Valid
    }
}

/// Why a header was not accepted.
#[derive(Clone, Copy, Debug, PartialEq, Eq, Structural)]
pub enum ValidationError {
    Verify(Error),
    Version,
    InvalidParent,
    /// The header passed every check but is already known to be invalid,
    /// so it is not committed; its sender is not penalised for it.
    KnownInvalid,
}

/// The verdict of acceptance, with the penalty its sender earns.
#[derive(Clone, Copy, Debug, PartialEq, Eq, Structural)]
pub struct ValidationResult {
    pub error: Option<ValidationError>,
    pub misbehavior: u32,
    pub state: ValidationState,
}

impl Default for ValidationResult {
    fn default() -> (r: ValidationResult)
        ensures
            r == valid_result(),
    {
        ValidationResult { error: None, misbehavior: 0, state: ValidationState::Valid }
    }
}

pub open spec fn valid_result() -> ValidationResult {
    ValidationResult { error: None, misbehavior: 0, state: ValidationState::Valid }
}

/// A fresh result marked invalid with a penalty of `score`.
pub open spec fn dos_result(e: ValidationError, score: u32) -> ValidationResult {
    ValidationResult { error: Some(e), misbehavior: score, state: ValidationState::Invalid }
}

impl ValidationResult {
    /// Marks the result invalid without a penalty.
    pub fn invalid(&mut self, error: Option<ValidationError>)
        ensures
            *final(self) == (ValidationResult {
                error,
                misbehavior: old(self).misbehavior,
                state: ValidationState::Invalid,
            }),
    {
        self.dos(error, 0);
    }

    /// Marks the result invalid and adds `misbehavior` to its penalty.
    pub fn dos(&mut self, error: Option<ValidationError>, misbehavior: u32)
        ensures
            *final(self) == (ValidationResult {
                error,
                misbehavior: add_misbehavior(old(self).misbehavior, misbehavior),
                state: ValidationState::Invalid,
            }),
    {
        self.error = error;
        self.misbehavior = self.misbehavior.saturating_add(misbehavior);
        self.state = ValidationState::Invalid;
    }

    /// Marks the result as not valid yet, without a penalty.
    pub fn temporary_invalid(&mut self, error: Option<ValidationError>)
        ensures
            *final(self) == (ValidationResult {
                error,
                misbehavior: old(self).misbehavior,
                state: ValidationState::TemporaryInvalid,
            }),
    {
        self.error = error;
        self.state = ValidationState::TemporaryInvalid;
    }

    pub fn is_valid(&self) -> (r: bool)
        ensures
            r == (self.state is Valid),
    {
        match self.state {
            ValidationState::Valid => true,
            _ => false,
        }
    }
}

/// What the header verifier is given: the header, its parent as far as it
/// could be resolved, and the size of the median-time window.
#[derive(Clone, Copy, Debug)]
pub struct VerifierResolver {
    pub header: Header,
    pub parent: Option<Header>,
    pub median_block_count: u64,
}

impl VerifierResolver {
    pub fn new(parent: Option<Header>, header: Header, shared: &SyncShared) -> (r: VerifierResolver)
        ensures
            r.parent == parent,
            r.header == header,
            r.median_block_count == shared.consensus.median_time_block_count as u64,
    {
        VerifierResolver {
            parent,
            header,
            median_block_count: shared.consensus.median_time_block_count as u64,
        }
    }

    pub fn header(&self) -> (r: &Header)
        ensures
            *r == self.header,
    {
        &self.header
    }

    pub fn parent(&self) -> (r: Option<Header>)
        ensures
            r == self.parent,
    {
        self.parent
    }

    pub fn median_block_count(&self) -> (r: u64)
        ensures
            r == self.median_block_count,
    {
        self.median_block_count
    }

    /// Looks a header up in the index.
    pub fn get_header(&self, shared: &SyncShared, hash: &Byte32) -> (r: Option<Header>)
        ensures
            r == match shared.header_of(*hash) {
                Some(v) => Some(v.header),
                None => None,
            },
    {
        match shared.get_header_view(hash) {
            Some(v) => Some(v.header),
            None => None,
        }
    }
}

/// Whether `h` is already known to be a valid header, so that acceptance
/// takes the fast path.
pub open spec fn known_valid(s: SyncShared, h: Header) -> bool {
    s.status_of(h.hash).spec_contains(BlockStatus::HeaderValid)
}

/// The verdict of acceptance of `h` against the statuses `st` and the
/// header index `hs`, where `verdict` is what the header verifier said of it.
pub open spec fn accept_outcome_on(
    st: Seq<StatusEntry>,
    hs: Seq<HeaderView>,
    h: Header,
    verdict: Result<(), Error>,
) -> ValidationResult {
    if status_in(st, h.hash).spec_contains(BlockStatus::HeaderValid) {
        valid_result()
    } else if status_in(st, h.parent_hash).spec_contains(BlockStatus::BlockInvalid) {
        dos_result(ValidationError::InvalidParent, 100)
    } else if header_in(hs, h.parent_hash) is None {
        dos_result(ValidationError::Verify(Error::UnknownParent(UnknownParentError { parent_hash: h.parent_hash })), 100)
    } else {
        match verdict {
            Err(e) => if e.spec_is_too_new() {
                ValidationResult {
                    error: Some(ValidationError::Verify(e)),
                    misbehavior: 0,
                    state: ValidationState::TemporaryInvalid,
                }
            } else {
                dos_result(ValidationError::Verify(e), 100)
            },
            Ok(()) => if h.version != 0 {
                dos_result(ValidationError::Version, 0)
            } else if status_in(st, h.hash) is BlockInvalid {
                dos_result(ValidationError::KnownInvalid, 0)
            } else {
                valid_result()
            },
        }
    }
}

/// The verdict of acceptance of `h` on state `s`.
pub open spec fn accept_outcome(s: SyncShared, h: Header, verdict: Result<(), Error>) -> ValidationResult {
    accept_outcome_on(s.statuses@, s.headers@, h, verdict)
}

/// The statuses and header index that acceptance of `h` leaves: a known
/// header, a known-invalid one and a too-new one change nothing; any other
/// rejection marks `h` invalid; a valid header is marked `HeaderValid` and
/// indexed on top of its parent.
pub open spec fn accept_chain(
    st: Seq<StatusEntry>,
    hs: Seq<HeaderView>,
    h: Header,
    verdict: Result<(), Error>,
) -> (Seq<StatusEntry>, Seq<HeaderView>) {
    let r = accept_outcome_on(st, hs, h, verdict);
    if status_in(st, h.hash).spec_contains(BlockStatus::HeaderValid) || status_in(st, h.hash) is BlockInvalid
        || r.state is TemporaryInvalid {
        (st, hs)
    } else if r.state is Invalid {
        (st.push(StatusEntry { hash: h.hash, status: BlockStatus::BlockInvalid }), hs)
    } else {
        (st.push(StatusEntry { hash: h.hash, status: BlockStatus::HeaderValid }), hs.push(view_on(hs, h)))
    }
}

/// Where a run of acceptance over a batch ended.
pub struct BatchRun {
    /// How many headers were accepted.
    pub accepted: int,
    /// The verdict on the header that stopped the run, if one did.
    pub rejection: Option<ValidationResult>,
    pub statuses: Seq<StatusEntry>,
    pub headers: Seq<HeaderView>,
    /// The sending peer's state, before any penalty.
    pub peer: Option<PeerState>,
    /// The node's best header.
    pub best: HeaderView,
}

/// Acceptance of `headers[i..]` in turn, each on the statuses, index,
/// peer state and best header that the ones before it leave, stopping at
/// the first that is not valid.
pub open spec fn run_batch(
    st: Seq<StatusEntry>,
    hs: Seq<HeaderView>,
    peer: Option<PeerState>,
    best: HeaderView,
    headers: Seq<Header>,
    verdicts: Seq<Result<(), Error>>,
    i: int,
) -> BatchRun
    decreases headers.len() - i,
{
    if i < 0 || i >= headers.len() {
        BatchRun { accepted: headers.len() as int, rejection: None, statuses: st, headers: hs, peer, best }
    } else {
        let h = headers[i];
        let v = verdicts[i];
        let r = accept_outcome_on(st, hs, h, v);
        let c = accept_chain(st, hs, h, v);
        let p = accept_peer_on(st, hs, peer, h, v);
        let b = accept_best_on(st, hs, best, h, v);
        if r.state is Valid {
            run_batch(c.0, c.1, p, b, headers, verdicts, i + 1)
        } else {
            BatchRun { accepted: i, rejection: Some(r), statuses: c.0, headers: c.1, peer: p, best: b }
        }
    }
}

/// Whether acceptance adds `h` to the index.
pub open spec fn commits(s: SyncShared, h: Header, verdict: Result<(), Error>) -> bool {
    !known_valid(s, h) && accept_outcome(s, h, verdict).state is Valid
}

/// The status acceptance leaves for `h`.
pub open spec fn accept_status(s: SyncShared, h: Header, verdict: Result<(), Error>) -> BlockStatus {
    if commits(s, h, verdict) {
        next_status(s.status_of(h.hash), BlockStatus::HeaderValid)
    } else if accept_outcome(s, h, verdict).state is Invalid {
        BlockStatus::BlockInvalid
    } else {
        s.status_of(h.hash)
    }
}

/// Whether acceptance against `st` and `hs` adds `h` to the index.
pub open spec fn commits_on(st: Seq<StatusEntry>, hs: Seq<HeaderView>, h: Header, verdict: Result<(), Error>) -> bool {
    !status_in(st, h.hash).spec_contains(BlockStatus::HeaderValid)
        && accept_outcome_on(st, hs, h, verdict).state is Valid
}

/// The state acceptance leaves for a peer whose state was `o`: the
/// accepted header is offered as its best-known one.
pub open spec fn accept_peer_on(
    st: Seq<StatusEntry>,
    hs: Seq<HeaderView>,
    o: Option<PeerState>,
    h: Header,
    verdict: Result<(), Error>,
) -> Option<PeerState> {
    if status_in(st, h.hash).spec_contains(BlockStatus::HeaderValid) {
        offered_best(o, header_in(hs, h.hash).unwrap())
    } else if commits_on(st, hs, h, verdict) {
        offered_best(o, view_on(hs, h))
    } else {
        o
    }
}

/// The node's best header after acceptance: a committed header replaces
/// it when it carries more work.
pub open spec fn accept_best_on(
    st: Seq<StatusEntry>,
    hs: Seq<HeaderView>,
    best: HeaderView,
    h: Header,
    verdict: Result<(), Error>,
) -> HeaderView {
    if commits_on(st, hs, h, verdict) && view_on(hs, h).total_difficulty > best.total_difficulty {
        view_on(hs, h)
    } else {
        best
    }
}

/// The state acceptance leaves for `peer`.
pub open spec fn accept_peer(s: SyncShared, h: Header, verdict: Result<(), Error>, peer: PeerIndex) -> Option<PeerState> {
    accept_peer_on(s.statuses@, s.headers@, s.peer_of(peer), h, verdict)
}

/// A header whose timestamp is too far ahead is only temporarily
/// invalid: no penalty, and neither statuses nor index change, so it can
/// be accepted once its time has come. The verifier judges the timestamp
/// against the resolved parent, so the parent is indexed.
pub proof fn lemma_too_new_is_temporary(s: SyncShared, h: Header, e: Error)
    requires
        !s.status_of(h.hash).spec_contains(BlockStatus::HeaderValid),
        !(s.status_of(h.hash) is BlockInvalid),
        !s.status_of(h.parent_hash).spec_contains(BlockStatus::BlockInvalid),
        s.header_of(h.parent_hash) is Some,
        e.spec_is_too_new(),
    ensures
        accept_outcome(s, h, Err(e)).state is TemporaryInvalid,
        accept_outcome(s, h, Err(e)).misbehavior == 0,
        accept_chain(s.statuses@, s.headers@, h, Err(e)) == (s.statuses@, s.headers@),
        !commits(s, h, Err(e)),
{
}

/// A header with `BlockInvalid` status keeps it.
pub open spec fn invalid_kept(s: SyncShared, t: SyncShared) -> bool {
    forall|x: Byte32| #[trigger] s.status_of(x) is BlockInvalid ==> t.status_of(x) is BlockInvalid
}

/// Runs one header through acceptance: the fast path for known headers,
/// the parent check, the verifier's verdict, the version gate, and the
/// commit into the index.
pub struct HeaderAcceptor {
    pub header: Header,
    pub peer: PeerIndex,
    pub resolver: VerifierResolver,
    /// What the header verifier said of `header`, given `resolver`.
    pub verdict: Result<(), Error>,
}

impl HeaderAcceptor {
    pub fn new(header: Header, peer: PeerIndex, resolver: VerifierResolver, verdict: Result<(), Error>) -> (r: HeaderAcceptor)
        ensures
            r.header == header,
            r.peer == peer,
            r.resolver == resolver,
            r.verdict == verdict,
    {
        HeaderAcceptor { header, peer, resolver, verdict }
    }

    /// Fails with a full penalty when the parent is known invalid.
    pub fn prev_block_check(&self, shared: &SyncShared, state: &mut ValidationResult) -> (r: Result<(), ()>)
        ensures
            r is Err <==> shared.status_of(self.header.parent_hash).spec_contains(BlockStatus::BlockInvalid),
            r is Err ==> *final(state) == (ValidationResult {
                error: Some(ValidationError::InvalidParent),
                misbehavior: add_misbehavior(old(state).misbehavior, 100),
                state: ValidationState::Invalid,
            }),
            r is Ok ==> *final(state) == *old(state),
    {
        if shared.contains_block_status(&self.header.parent_hash, BlockStatus::BlockInvalid) {
            state.dos(Some(ValidationError::InvalidParent), 100);
            return Err(());
        }
        Ok(())
    }

    /// Applies the verifier's verdict, with an unknown parent counted as a
    /// verification failure. `Err(true)` means the header is invalid for
    /// good; `Err(false)` that it may become valid later.
    pub fn non_contextual_check(&self, shared: &SyncShared, state: &mut ValidationResult) -> (r: Result<(), bool>)
        ensures
            shared.header_of(self.header.parent_hash) is None ==> r == Err::<(), bool>(true) && *final(state) == (ValidationResult {
                error: Some(ValidationError::Verify(Error::UnknownParent(UnknownParentError { parent_hash: self.header.parent_hash }))),
                misbehavior: add_misbehavior(old(state).misbehavior, 100),
                state: ValidationState::Invalid,
            }),
            shared.header_of(self.header.parent_hash) is Some ==> match self.verdict {
                Ok(()) => r is Ok && *final(state) == *old(state),
                Err(e) => if e.spec_is_too_new() {
                    r == Err::<(), bool>(false) && *final(state) == (ValidationResult {
                        error: Some(ValidationError::Verify(e)),
                        misbehavior: old(state).misbehavior,
                        state: ValidationState::TemporaryInvalid,
                    })
                } else {
                    r == Err::<(), bool>(true) && *final(state) == (ValidationResult {
                        error: Some(ValidationError::Verify(e)),
                        misbehavior: add_misbehavior(old(state).misbehavior, 100),
                        state: ValidationState::Invalid,
                    })
                },
            },
    {
        if shared.get_header_view(&self.header.parent_hash).is_none() {
            let e = Error::UnknownParent(UnknownParentError { parent_hash: self.header.parent_hash });
            state.dos(Some(ValidationError::Verify(e)), 100);
            return Err(true);
        }
        match self.verdict {
            Ok(()) => Ok(()),
            Err(e) => {
                if e.is_too_new() {
                    state.temporary_invalid(Some(ValidationError::Verify(e)));
                    Err(false)
                } else {
                    state.dos(Some(ValidationError::Verify(e)), 100);
                    Err(true)
                }
            },
        }
    }

    /// Rejects, without a penalty, a header whose version is not 0.
    pub fn version_check(&self, state: &mut ValidationResult) -> (r: Result<(), ()>)
        ensures
            r is Err <==> self.header.version != 0,
            r is Err ==> *final(state) == (ValidationResult {
                error: Some(ValidationError::Version),
                misbehavior: old(state).misbehavior,
                state: ValidationState::Invalid,
            }),
            r is Ok ==> *final(state) == *old(state),
    {
        if self.header.version != 0 {
            state.invalid(Some(ValidationError::Version));
            Err(())
        } else {
            Ok(())
        }
    }

    pub fn accept(&self, shared: &mut SyncShared) -> (r: ValidationResult)
        requires
            old(shared).wf(),
        ensures
            final(shared).wf(),
            r == accept_outcome(*old(shared), self.header, self.verdict),
            forall|x: Byte32| #[trigger]
                final(shared).status_of(x) == if x == self.header.hash {
                    accept_status(*old(shared), self.header, self.verdict)
                } else {
                    old(shared).status_of(x)
                },
            final(shared).headers@ == if commits(*old(shared), self.header, self.verdict) {
                old(shared).headers@.push(old(shared).view_on_parent(self.header))
            } else {
                old(shared).headers@
            },
            forall|q: PeerIndex| #[trigger]
                final(shared).peer_of(q) == if q == self.peer {
                    accept_peer(*old(shared), self.header, self.verdict, self.peer)
                } else {
                    old(shared).peer_of(q)
                },
            (final(shared).statuses@, final(shared).headers@) == accept_chain(
                old(shared).statuses@,
                old(shared).headers@,
                self.header,
                self.verdict,
            ),
            invalid_kept(*old(shared), *final(shared)),
            best_known_monotone(*old(shared), *final(shared)),
            commits(*old(shared), self.header, self.verdict) ==> old(shared).header_of(self.header.parent_hash) is Some,
            final(shared).shared_best_header == accept_best_on(
                old(shared).statuses@,
                old(shared).headers@,
                old(shared).shared_best_header,
                self.header,
                self.verdict,
            ),
            r.state is Valid ==> final(shared).status_of(self.header.hash).spec_contains(BlockStatus::HeaderValid),
            r.state is Valid ==> final(shared).header_of(self.header.hash) is Some,
            final(shared).same_setting(*old(shared)),
            final(shared).same_requests(*old(shared)),
    {
        let mut result = ValidationResult::default();
        let status = shared.get_block_status(&self.header.hash);
        if status.contains(BlockStatus::HeaderValid) {
            let header_view = shared.get_header_view(&self.header.hash).unwrap();
            shared.may_set_best_known_header(self.peer, header_view);
            return result;
        }
        if self.prev_block_check(shared, &mut result).is_err() {
            shared.insert_block_status(self.header.hash, BlockStatus::BlockInvalid);
            return result;
        }
        match self.non_contextual_check(shared, &mut result) {
            Err(is_invalid) => {
                if is_invalid {
                    shared.insert_block_status(self.header.hash, BlockStatus::BlockInvalid);
                }
                return result;
            },
            Ok(()) => {},
        }
        if self.version_check(&mut result).is_err() {
            shared.insert_block_status(self.header.hash, BlockStatus::BlockInvalid);
            return result;
        }
        if status.contains(BlockStatus::BlockInvalid) {
            result.invalid(Some(ValidationError::KnownInvalid));
            return result;
        }
        shared.insert_valid_header(self.peer, self.header);
        assert(shared.headers@.last().header == self.header);
        result
    }
}

/// Most headers one message may carry; a full batch asks for more.
pub const MAX_HEADERS_LEN: usize = 2000;

/// Penalty for an oversized or broken batch of headers.
pub const BAD_BATCH_SCORE: u32 = 20;

/// Whether each header names the one before it as its parent.
pub open spec fn continuous(headers: Seq<Header>) -> bool {
    forall|i: int| 0 <= i < headers.len() - 1 ==> (#[trigger] headers[i + 1]).parent_hash == headers[i].hash
}

/// The flags of `p`, or none set for an unknown peer.
pub open spec fn flags_of(s: SyncShared, p: PeerIndex) -> PeerFlags {
    match s.peer_of(p) {
        Some(st) => st.peer_flags,
        None => PeerFlags { is_outbound: false, is_protect: false, is_whitelist: false },
    }
}

/// An outbound peer that nothing protects.
pub open spec fn prunable(f: PeerFlags) -> bool {
    f.is_outbound && !f.is_protect && !f.is_whitelist
}

/// What handling a batch of headers decided.
#[derive(Debug)]
pub struct HeadersOutcome {
    pub status: Status,
    pub actions: Vec<Action>,
    /// How many headers, from the first, passed acceptance.
    pub accepted: usize,
    /// The verdict on the first header that failed acceptance, if any.
    pub rejection: Option<ValidationResult>,
}

/// `b` is `a` with at most a new best-known header and a penalty of
/// `score` added.
pub open spec fn penalty_applied(a: Option<PeerState>, b: Option<PeerState>, score: u32) -> bool {
    match a {
        None => b is None,
        Some(x) => match b {
            None => false,
            Some(y) => y == PeerState {
                best_known: y.best_known,
                misbehavior: add_misbehavior(x.misbehavior, score),
                ..x
            },
        },
    }
}

/// The penalty a rejection carries; none without a rejection.
pub open spec fn rejection_score(r: Option<ValidationResult>) -> u32 {
    match r {
        Some(rj) => rj.misbehavior,
        None => 0,
    }
}

/// Handles a `SendHeaders` message: a batch of headers from one peer.
pub struct HeadersProcess {
    pub headers: Vec<Header>,
    pub peer: PeerIndex,
}

impl HeadersProcess {
    pub fn new(headers: Vec<Header>, peer: PeerIndex) -> (r: HeadersProcess)
        ensures
            r.headers@ == headers@,
            r.peer == peer,
    {
        HeadersProcess { headers, peer }
    }

    pub fn is_continuous(&self) -> (r: bool)
        ensures
            r == continuous(self.headers@),
    {
        let n = self.headers.len();
        if n < 2 {
            return true;
        }
        let mut i: usize = 1;
        while i < n
            invariant
                n == self.headers@.len(),
                1 <= i <= n,
                forall|j: int| 0 <= j < i - 1 ==> (#[trigger] self.headers@[j + 1]).parent_hash == self.headers@[j].hash,
            decreases n - i,
        {
            if self.headers[i].parent_hash != self.headers[i - 1].hash {
                assert(self.headers@[(i - 1) + 1].parent_hash != self.headers@[i - 1].hash);
                return false;
            }
            i = i + 1;
        }
        true
    }

    /// Accepts the first header of the batch, whose parent comes from the index.
    pub fn accept_first(&self, shared: &mut SyncShared, verdict: Result<(), Error>) -> (r: ValidationResult)
        requires
            old(shared).wf(),
            self.headers@.len() > 0,
        ensures
            final(shared).wf(),
            r == accept_outcome(*old(shared), self.headers@[0], verdict),
            forall|x: Byte32| #[trigger]
                final(shared).status_of(x) == if x == self.headers@[0].hash {
                    accept_status(*old(shared), self.headers@[0], verdict)
                } else {
                    old(shared).status_of(x)
                },
            final(shared).headers@ == if commits(*old(shared), self.headers@[0], verdict) {
                old(shared).headers@.push(old(shared).view_on_parent(self.headers@[0]))
            } else {
                old(shared).headers@
            },
            forall|q: PeerIndex| #[trigger]
                final(shared).peer_of(q) == if q == self.peer {
                    accept_peer(*old(shared), self.headers@[0], verdict, self.peer)
                } else {
                    old(shared).peer_of(q)
                },
            (final(shared).statuses@, final(shared).headers@) == accept_chain(
                old(shared).statuses@,
                old(shared).headers@,
                self.headers@[0],
                verdict,
            ),
            invalid_kept(*old(shared), *final(shared)),
            best_known_monotone(*old(shared), *final(shared)),
            r.state is Valid ==> final(shared).header_of(self.headers@[0].hash) is Some,
            final(shared).shared_best_header == accept_best_on(
                old(shared).statuses@,
                old(shared).headers@,
                old(shared).shared_best_header,
                self.headers@[0],
                verdict,
            ),
            final(shared).same_setting(*old(shared)),
            final(shared).same_requests(*old(shared)),
    {
        let first = self.headers[0];
        let parent = match shared.get_header_view(&first.parent_hash) {
            Some(v) => Some(v.header),
            None => None,
        };
        let resolver = VerifierResolver::new(parent, first, shared);
        let acceptor = HeaderAcceptor::new(first, self.peer, resolver, verdict);
        acceptor.accept(shared)
    }

    /// Handles the batch. `verdicts[i]` is what the header verifier said of
    /// `headers[i]`, with `headers[i - 1]` as its parent.
    pub fn execute(&self, shared: &mut SyncShared, verdicts: &Vec<Result<(), Error>>) -> (r: HeadersOutcome)
        requires
            old(shared).wf(),
            verdicts@.len() == self.headers@.len(),
        ensures
            final(shared).wf(),
            r.status.code is OK,
            invalid_kept(*old(shared), *final(shared)),
            best_known_monotone(*old(shared), *final(shared)),
            final(shared).same_setting(*old(shared)),
            final(shared).same_requests(*old(shared)),
            forall|q: PeerIndex| q != self.peer ==> #[trigger] final(shared).peer_of(q) == old(shared).peer_of(q),
            self.headers@.len() > MAX_HEADERS_LEN ==> {
                &&& final(shared).same_chain(*old(shared))
                &&& final(shared).peer_of(self.peer) == penalised(old(shared).peer_of(self.peer), BAD_BATCH_SCORE)
                &&& r.actions@.len() == 0
                &&& r.accepted == 0
            },
            self.headers@.len() == 0 ==> {
                &&& final(shared).same_chain(*old(shared))
                &&& final(shared).peer_of(self.peer) == if old(shared).ibd {
                    old(shared).peer_of(self.peer)
                } else {
                    sync_stopped(old(shared).peer_of(self.peer))
                }
                &&& r.actions@.len() == 0
                &&& r.accepted == 0
            },
            0 < self.headers@.len() <= MAX_HEADERS_LEN && !continuous(self.headers@) ==> {
                &&& final(shared).same_chain(*old(shared))
                &&& final(shared).peer_of(self.peer) == penalised(old(shared).peer_of(self.peer), BAD_BATCH_SCORE)
                &&& r.actions@.len() == 0
                &&& r.accepted == 0
            },
            0 < self.headers@.len() <= MAX_HEADERS_LEN && continuous(self.headers@) ==> {
                &&& r.accepted <= self.headers@.len()
                &&& r.accepted as int == run_batch(old(shared).statuses@, old(shared).headers@, old(shared).peer_of(self.peer), old(shared).shared_best_header, self.headers@, verdicts@, 0).accepted
                &&& r.rejection == run_batch(old(shared).statuses@, old(shared).headers@, old(shared).peer_of(self.peer), old(shared).shared_best_header, self.headers@, verdicts@, 0).rejection
                &&& final(shared).statuses@ == run_batch(old(shared).statuses@, old(shared).headers@, old(shared).peer_of(self.peer), old(shared).shared_best_header, self.headers@, verdicts@, 0).statuses
                &&& final(shared).headers@ == run_batch(old(shared).statuses@, old(shared).headers@, old(shared).peer_of(self.peer), old(shared).shared_best_header, self.headers@, verdicts@, 0).headers
                &&& final(shared).peer_of(self.peer) == penalised(
                    run_batch(old(shared).statuses@, old(shared).headers@, old(shared).peer_of(self.peer), old(shared).shared_best_header, self.headers@, verdicts@, 0).peer,
                    rejection_score(r.rejection),
                )
                &&& final(shared).shared_best_header == run_batch(old(shared).statuses@, old(shared).headers@, old(shared).peer_of(self.peer), old(shared).shared_best_header, self.headers@, verdicts@, 0).best
                &&& (r.accepted == 0) == !(accept_outcome(*old(shared), self.headers@[0], verdicts@[0]).state is Valid)
                &&& r.accepted == 0 ==> r.rejection == Some(accept_outcome(*old(shared), self.headers@[0], verdicts@[0]))
                &&& (r.accepted < self.headers@.len()) == (r.rejection is Some)
                &&& r.rejection matches Some(rj) ==> !(rj.state is Valid)
                &&& penalty_applied(old(shared).peer_of(self.peer), final(shared).peer_of(self.peer), rejection_score(r.rejection))
                &&& old(shared).headers@.len() <= final(shared).headers@.len()
                &&& final(shared).headers@.take(old(shared).headers@.len() as int) == old(shared).headers@
                &&& forall|j: int| old(shared).headers@.len() <= j < final(shared).headers@.len() ==> exists|i: int|
                    0 <= i < r.accepted && (#[trigger] final(shared).headers@[j]).header == self.headers@[i]
                &&& forall|i: int| 0 <= i < r.accepted ==> (#[trigger] final(shared).header_of(self.headers@[i].hash)) is Some
                &&& forall|x: Byte32| (forall|i: int| 0 <= i < self.headers@.len() ==> self.headers@[i].hash != x)
                    ==> #[trigger] final(shared).status_of(x) == old(shared).status_of(x)
                &&& r.actions@ == if r.accepted < self.headers@.len() {
                    Seq::<Action>::empty()
                } else if self.headers@.len() == MAX_HEADERS_LEN {
                    seq![Action::GetHeaders { peer: self.peer, anchor: self.headers@.last().hash }]
                } else if final(shared).ibd && prunable(flags_of(*final(shared), self.peer)) {
                    seq![Action::Disconnect { peer: self.peer }]
                } else {
                    Seq::<Action>::empty()
                }
            },
    {
        let n = self.headers.len();
        if n > MAX_HEADERS_LEN {
            shared.misbehavior(self.peer, BAD_BATCH_SCORE);
            return HeadersOutcome { status: Status::ok(), actions: Vec::new(), accepted: 0, rejection: None };
        }
        if n == 0 {
            if !shared.ibd {
                shared.stop_headers_sync(self.peer);
            }
            return HeadersOutcome { status: Status::ok(), actions: Vec::new(), accepted: 0, rejection: None };
        }
        if !self.is_continuous() {
            shared.misbehavior(self.peer, BAD_BATCH_SCORE);
            return HeadersOutcome { status: Status::ok(), actions: Vec::new(), accepted: 0, rejection: None };
        }
        let result = self.accept_first(shared, verdicts[0]);
        if !result.is_valid() {
            if result.misbehavior > 0 {
                shared.misbehavior(self.peer, result.misbehavior);
            }
            return HeadersOutcome { status: Status::ok(), actions: Vec::new(), accepted: 0, rejection: Some(result) };
        }
        let mut i: usize = 1;
        while i < n
            invariant
                n == self.headers@.len(),
                n == verdicts@.len(),
                n <= MAX_HEADERS_LEN,
                continuous(self.headers@),
                accept_outcome(*old(shared), self.headers@[0], verdicts@[0]).state is Valid,
                1 <= i <= n,
                shared.wf(),
                invalid_kept(*old(shared), *shared),
                best_known_monotone(*old(shared), *shared),
                shared.same_setting(*old(shared)),
                shared.same_requests(*old(shared)),
                forall|q: PeerIndex| q != self.peer ==> #[trigger] shared.peer_of(q) == old(shared).peer_of(q),
                forall|j: int| 0 <= j < i ==> (#[trigger] shared.header_of(self.headers@[j].hash)) is Some,
                forall|x: Byte32| (forall|j: int| 0 <= j < self.headers@.len() ==> self.headers@[j].hash != x)
                    ==> #[trigger] shared.status_of(x) == old(shared).status_of(x),
                penalty_applied(old(shared).peer_of(self.peer), shared.peer_of(self.peer), 0),
                run_batch(old(shared).statuses@, old(shared).headers@, old(shared).peer_of(self.peer), old(shared).shared_best_header, self.headers@, verdicts@, 0)
                    == run_batch(shared.statuses@, shared.headers@, shared.peer_of(self.peer), shared.shared_best_header, self.headers@, verdicts@, i as int),
                old(shared).headers@.len() <= shared.headers@.len(),
                shared.headers@.take(old(shared).headers@.len() as int) == old(shared).headers@,
                forall|j: int| old(shared).headers@.len() <= j < shared.headers@.len() ==> exists|k: int|
                    0 <= k < i && (#[trigger] shared.headers@[j]).header == self.headers@[k],
            decreases n - i,
        {
            let parent = self.headers[i - 1];
            let header = self.headers[i];
            let resolver = VerifierResolver::new(Some(parent), header, shared);
            let acceptor = HeaderAcceptor::new(header, self.peer, resolver, verdicts[i]);
            let ghost before = *shared;
            let result = acceptor.accept(shared);
            proof {
                lemma_header_in_push(before.headers@, before.view_on_parent(header));
                assert forall|x: Byte32| (forall|j: int| 0 <= j < self.headers@.len() ==> self.headers@[j].hash != x)
                    implies #[trigger] shared.status_of(x) == old(shared).status_of(x) by {
                    assert(self.headers@[i as int].hash != x);
                    assert(before.status_of(x) == old(shared).status_of(x));
                }
            }
            proof {
                lemma_monotone_trans(*old(shared), before, *shared);
                if shared.headers@.len() > before.headers@.len() {
                    assert(shared.headers@.take(old(shared).headers@.len() as int) =~= before.headers@.take(old(shared).headers@.len() as int));
                    assert forall|j: int| old(shared).headers@.len() <= j < shared.headers@.len() implies exists|k: int|
                        0 <= k < i + 1 && (#[trigger] shared.headers@[j]).header == self.headers@[k] by {
                        if j == before.headers@.len() {
                            assert(shared.headers@[j].header == self.headers@[i as int]);
                        } else {
                            assert(shared.headers@[j] == before.headers@[j]);
                        }
                    }
                }
            }
            if !result.is_valid() {
                if result.misbehavior > 0 {
                    let ghost mid = *shared;
                    shared.misbehavior(self.peer, result.misbehavior);
                    proof {
                        assert(best_known_monotone(mid, *shared)) by {
                            assert forall|q: PeerIndex| #[trigger] best_not_worse(mid.peer_of(q), shared.peer_of(q)) by {
                                lemma_peer_updates_keep_best(mid.peer_of(q), mid.shared_best_header, result.misbehavior);
                            }
                        }
                        lemma_monotone_trans(*old(shared), mid, *shared);
                    }
                }
                return HeadersOutcome { status: Status::ok(), actions: Vec::new(), accepted: i, rejection: Some(result) };
            }
            i = i + 1;
        }
        let mut actions: Vec<Action> = Vec::new();
        if n == MAX_HEADERS_LEN {
            actions.push(Action::GetHeaders { peer: self.peer, anchor: self.headers[n - 1].hash });
        } else if shared.ibd {
            let flags = match shared.get_peer_state(self.peer) {
                Some(st) => st.peer_flags,
                None => PeerFlags { is_outbound: false, is_protect: false, is_whitelist: false },
            };
            if !flags.is_protect && !flags.is_whitelist && flags.is_outbound {
                actions.push(Action::Disconnect { peer: self.peer });
            }
        }
        HeadersOutcome { status: Status::ok(), actions, accepted: n, rejection: None }
    }
}

} // verus!
