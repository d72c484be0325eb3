use ckb_sync::error::{Error, HeaderError, HeaderErrorKind, TimestampError};
use ckb_sync::headers_process::{
    HeaderAcceptor, HeadersProcess, ValidationError, ValidationResult, ValidationState,
    VerifierResolver, MAX_HEADERS_LEN,
};
use ckb_sync::message::Action;
use ckb_sync::shared::{Consensus, PeerFlags, SyncShared};
use ckb_sync::status::StatusCode;
use ckb_sync::types::{BlockStatus, Byte32, Header, PeerIndex};

fn hash(n: u64) -> Byte32 {
    Byte32 { w0: n, w1: 0, w2: 0, w3: 0 }
}

fn header(h: u64, parent: u64, number: u64) -> Header {
    Header {
        hash: hash(h),
        parent_hash: hash(parent),
        number,
        timestamp: 1_000 + number,
        compact_target: 0x1d00_ffff,
        difficulty: 10,
        version: 0,
        nonce: 0,
        transactions_root: Byte32::zero(),
    }
}

fn consensus() -> Consensus {
    Consensus { max_uncles_num: 2, max_block_proposals_limit: 1500, median_time_block_count: 37 }
}

fn shared_with_peer(p: PeerIndex, flags: PeerFlags) -> SyncShared {
    let mut s = SyncShared::new(consensus(), header(1, 0, 0), 1800, 64, 16);
    s.add_peer(p, flags);
    s
}

fn inbound() -> PeerFlags {
    PeerFlags { is_outbound: false, is_protect: false, is_whitelist: false }
}

fn oks(n: usize) -> Vec<Result<(), Error>> {
    (0..n).map(|_| Ok(())).collect()
}

#[test]
fn continuity_break_penalises_and_admits_nothing() {
    let p = PeerIndex(3);
    let mut s = shared_with_peer(p, inbound());
    let batch = vec![header(2, 1, 1), header(3, 2, 2), header(4, 9, 3)];
    let process = HeadersProcess::new(batch, p);
    let out = process.execute(&mut s, &oks(3));
    assert_eq!(out.status.code, StatusCode::OK);
    assert!(out.actions.is_empty());
    assert_eq!(s.get_peer_state(p).unwrap().misbehavior, 20);
    for h in 2..5 {
        assert!(s.get_header_view(&hash(h)).is_none());
        assert_eq!(s.get_block_status(&hash(h)), BlockStatus::Unknown);
    }
}

#[test]
fn continuous_batch_is_admitted_with_total_difficulty() {
    let p = PeerIndex(3);
    let mut s = shared_with_peer(p, inbound());
    let batch = vec![header(2, 1, 1), header(3, 2, 2), header(4, 3, 3)];
    let out = HeadersProcess::new(batch, p).execute(&mut s, &oks(3));
    assert_eq!(out.status.code, StatusCode::OK);
    assert_eq!(out.accepted, 3);
    assert!(out.actions.is_empty());
    assert_eq!(s.get_header_view(&hash(4)).unwrap().total_difficulty, 40);
    assert_eq!(s.get_block_status(&hash(3)), BlockStatus::HeaderValid);
    assert_eq!(s.get_best_known_header(p).unwrap().header.hash, hash(4));
    assert_eq!(s.shared_best_header.header.hash, hash(4));
}

#[test]
fn oversized_batch_penalised() {
    let p = PeerIndex(1);
    let mut s = shared_with_peer(p, inbound());
    let mut batch = Vec::new();
    for i in 0..(MAX_HEADERS_LEN as u64 + 1) {
        batch.push(header(i + 2, i + 1, i + 1));
    }
    let n = batch.len();
    let out = HeadersProcess::new(batch, p).execute(&mut s, &oks(n));
    assert_eq!(out.status.code, StatusCode::OK);
    assert_eq!(s.get_peer_state(p).unwrap().misbehavior, 20);
    assert!(s.get_header_view(&hash(2)).is_none());
}

#[test]
fn full_batch_asks_for_more_headers() {
    let p = PeerIndex(1);
    let mut s = shared_with_peer(p, inbound());
    let mut batch = Vec::new();
    for i in 0..(MAX_HEADERS_LEN as u64) {
        batch.push(header(i + 2, i + 1, i + 1));
    }
    let n = batch.len();
    let out = HeadersProcess::new(batch, p).execute(&mut s, &oks(n));
    assert_eq!(out.accepted, MAX_HEADERS_LEN);
    assert_eq!(out.actions.len(), 1);
    assert!(matches!(out.actions[0], Action::GetHeaders { peer, anchor } if peer == p && anchor == hash(MAX_HEADERS_LEN as u64 + 1)));
}

#[test]
fn empty_headers_stop_sync_outside_ibd() {
    let p = PeerIndex(2);
    let mut s = shared_with_peer(p, inbound());
    s.start_headers_sync(p, 99);
    let process = HeadersProcess::new(Vec::new(), p);
    let out = process.execute(&mut s, &Vec::new());
    assert_eq!(out.status.code, StatusCode::OK);
    assert_eq!(s.get_peer_state(p).unwrap().headers_sync_timeout, None);
    let again = process.execute(&mut s, &Vec::new());
    assert_eq!(again.status.code, StatusCode::OK);
    assert_eq!(s.get_peer_state(p).unwrap().headers_sync_timeout, None);
    assert_eq!(s.get_peer_state(p).unwrap().misbehavior, 0);
}

#[test]
fn empty_headers_keep_sync_in_ibd() {
    let p = PeerIndex(2);
    let mut s = shared_with_peer(p, inbound());
    s.set_initial_block_download(true);
    s.start_headers_sync(p, 99);
    HeadersProcess::new(Vec::new(), p).execute(&mut s, &Vec::new());
    assert_eq!(s.get_peer_state(p).unwrap().headers_sync_timeout, Some(99));
}

#[test]
fn useless_outbound_peer_pruned_in_ibd() {
    let p = PeerIndex(4);
    let flags = PeerFlags { is_outbound: true, is_protect: false, is_whitelist: false };
    let mut s = shared_with_peer(p, flags);
    s.set_initial_block_download(true);
    let out = HeadersProcess::new(vec![header(2, 1, 1)], p).execute(&mut s, &oks(1));
    assert_eq!(out.actions.len(), 1);
    assert!(matches!(out.actions[0], Action::Disconnect { peer } if peer == p));

    let q = PeerIndex(5);
    let protected = PeerFlags { is_outbound: true, is_protect: true, is_whitelist: false };
    s.add_peer(q, protected);
    let out = HeadersProcess::new(vec![header(3, 2, 2)], q).execute(&mut s, &oks(1));
    assert!(out.actions.is_empty());
}

#[test]
fn too_new_header_is_temporarily_invalid() {
    let p = PeerIndex(1);
    let mut s = shared_with_peer(p, inbound());
    let now: u64 = 1_700_000_000_000;
    let mut h = header(2, 1, 1);
    h.timestamp = now + 20 * 60 * 1000;
    let e: HeaderError = TimestampError::BlockTimeTooNew { max: now + 15 * 60 * 1000, actual: h.timestamp }.into();
    let out = HeadersProcess::new(vec![h], p).execute(&mut s, &vec![Err(Error::Header(e))]);
    assert_eq!(out.status.code, StatusCode::OK);
    assert_eq!(out.accepted, 0);
    assert_eq!(s.get_block_status(&hash(2)), BlockStatus::Unknown);
    assert_eq!(s.get_peer_state(p).unwrap().misbehavior, 0);
}

#[test]
fn acceptor_outcomes() {
    let p = PeerIndex(1);
    let mut s = shared_with_peer(p, inbound());
    let h = header(2, 1, 1);
    let resolver = VerifierResolver::new(Some(header(1, 0, 0)), h, &s);
    assert_eq!(resolver.median_block_count(), 37);

    let bad: HeaderError = HeaderErrorKind::Pow.into();
    let r = HeaderAcceptor::new(h, p, resolver, Err(Error::Header(bad))).accept(&mut s);
    assert_eq!(r.state, ValidationState::Invalid);
    assert_eq!(r.misbehavior, 100);
    assert_eq!(s.get_block_status(&hash(2)), BlockStatus::BlockInvalid);

    // A child of an invalid header is rejected with a full penalty.
    let child = header(3, 2, 2);
    let r = HeaderAcceptor::new(child, p, resolver, Ok(())).accept(&mut s);
    assert_eq!(r.error, Some(ValidationError::InvalidParent));
    assert_eq!(r.misbehavior, 100);
    assert_eq!(s.get_block_status(&hash(3)), BlockStatus::BlockInvalid);

    // A header known to be invalid that passes every check is still not
    // committed, and its sender is not penalised for it.
    let r = HeaderAcceptor::new(h, p, resolver, Ok(())).accept(&mut s);
    assert!(!r.is_valid());
    assert_eq!(r.error, Some(ValidationError::KnownInvalid));
    assert_eq!(r.misbehavior, 0);
    assert_eq!(s.get_block_status(&hash(2)), BlockStatus::BlockInvalid);
    assert!(s.get_header_view(&hash(2)).is_none());
    assert!(s.get_best_known_header(p).is_none());

    // Version gate: invalid without a penalty.
    let mut v = header(4, 1, 1);
    v.version = 1;
    let r = HeaderAcceptor::new(v, p, resolver, Ok(())).accept(&mut s);
    assert_eq!(r.error, Some(ValidationError::Version));
    assert_eq!(r.misbehavior, 0);
    assert_eq!(s.get_block_status(&hash(4)), BlockStatus::BlockInvalid);

    // Unknown parent.
    let orphan = header(5, 77, 9);
    let r = HeaderAcceptor::new(orphan, p, resolver, Ok(())).accept(&mut s);
    assert_eq!(r.state, ValidationState::Invalid);
    assert_eq!(r.misbehavior, 100);
    assert!(s.get_header_view(&hash(5)).is_none());
}

#[test]
fn known_header_takes_fast_path() {
    let p = PeerIndex(1);
    let mut s = shared_with_peer(p, inbound());
    let h = header(2, 1, 1);
    let resolver = VerifierResolver::new(Some(header(1, 0, 0)), h, &s);
    assert!(HeaderAcceptor::new(h, p, resolver, Ok(())).accept(&mut s).is_valid());
    let bad: HeaderError = HeaderErrorKind::Pow.into();
    let r = HeaderAcceptor::new(h, p, resolver, Err(Error::Header(bad))).accept(&mut s);
    assert!(r.is_valid());
    assert_eq!(s.get_block_status(&hash(2)), BlockStatus::HeaderValid);
}

#[test]
fn validation_result_updates() {
    let mut r = ValidationResult::default();
    assert!(r.is_valid());
    r.temporary_invalid(None);
    assert_eq!(r.state, ValidationState::TemporaryInvalid);
    r.dos(Some(ValidationError::InvalidParent), 100);
    assert_eq!(r.misbehavior, 100);
    r.dos(None, u32::MAX);
    assert_eq!(r.misbehavior, u32::MAX);
    r.invalid(Some(ValidationError::Version));
    assert_eq!(r.state, ValidationState::Invalid);
    assert_eq!(r.misbehavior, u32::MAX);
}

#[test]
fn rejection_mid_batch_stops_and_penalises() {
    let p = PeerIndex(3);
    let mut s = shared_with_peer(p, inbound());
    let batch = vec![header(2, 1, 1), header(3, 2, 2), header(4, 3, 3)];
    let pow: HeaderError = HeaderErrorKind::Pow.into();
    let verdicts = vec![Ok(()), Err(Error::Header(pow)), Ok(())];
    let out = HeadersProcess::new(batch, p).execute(&mut s, &verdicts);
    assert_eq!(out.status.code, StatusCode::OK);
    assert_eq!(out.accepted, 1);
    let rejection = out.rejection.unwrap();
    assert_eq!(rejection.state, ValidationState::Invalid);
    assert_eq!(rejection.misbehavior, 100);
    assert_eq!(s.get_peer_state(p).unwrap().misbehavior, 100);
    assert!(s.get_header_view(&hash(2)).is_some());
    assert_eq!(s.get_block_status(&hash(3)), BlockStatus::BlockInvalid);
    assert!(s.get_header_view(&hash(4)).is_none());
    assert!(out.actions.is_empty());
}

#[test]
fn known_invalid_header_stops_batch() {
    let p = PeerIndex(3);
    let mut s = shared_with_peer(p, inbound());
    s.insert_block_status(hash(2), BlockStatus::BlockInvalid);
    let out = HeadersProcess::new(vec![header(2, 1, 1), header(3, 2, 2)], p).execute(&mut s, &oks(2));
    assert_eq!(out.accepted, 0);
    assert_eq!(out.rejection.unwrap().error, Some(ValidationError::KnownInvalid));
    assert_eq!(s.get_peer_state(p).unwrap().misbehavior, 0);
    assert!(s.get_header_view(&hash(2)).is_none());
    assert!(s.get_header_view(&hash(3)).is_none());
    assert_eq!(s.get_block_status(&hash(2)), BlockStatus::BlockInvalid);
}

#[test]
fn known_invalid_header_runs_the_usual_checks() {
    let p = PeerIndex(1);
    let mut s = shared_with_peer(p, inbound());
    s.insert_block_status(hash(2), BlockStatus::BlockInvalid);
    let now: u64 = 1_700_000_000_000;
    let mut h = header(2, 1, 1);
    h.timestamp = now + 20 * 60 * 1000;
    let resolver = VerifierResolver::new(Some(header(1, 0, 0)), h, &s);
    // Too new: only temporarily invalid, no penalty.
    let e: HeaderError = TimestampError::BlockTimeTooNew { max: now + 15 * 60 * 1000, actual: h.timestamp }.into();
    let r = HeaderAcceptor::new(h, p, resolver, Err(Error::Header(e))).accept(&mut s);
    assert_eq!(r.state, ValidationState::TemporaryInvalid);
    assert_eq!(r.misbehavior, 0);
    // Failed verification: the verifier's error with a full penalty.
    let pow: HeaderError = HeaderErrorKind::Pow.into();
    let r = HeaderAcceptor::new(h, p, resolver, Err(Error::Header(pow))).accept(&mut s);
    assert_eq!(r.error, Some(ValidationError::Verify(Error::Header(pow))));
    assert_eq!(r.misbehavior, 100);
    // Wrong version: the version error, no penalty.
    let mut v = h;
    v.version = 1;
    let r = HeaderAcceptor::new(v, p, resolver, Ok(())).accept(&mut s);
    assert_eq!(r.error, Some(ValidationError::Version));
    assert_eq!(r.misbehavior, 0);
    assert_eq!(s.get_block_status(&hash(2)), BlockStatus::BlockInvalid);
    assert!(s.get_header_view(&hash(2)).is_none());
}

#[test]
fn batch_moves_best_headers() {
    let p = PeerIndex(3);
    let mut s = shared_with_peer(p, inbound());
    let out = HeadersProcess::new(vec![header(2, 1, 1), header(3, 2, 2)], p).execute(&mut s, &oks(2));
    assert_eq!(out.accepted, 2);
    assert_eq!(s.get_best_known_header(p).unwrap().total_difficulty, 30);
    assert_eq!(s.shared_best_header.total_difficulty, 30);
    assert_eq!(s.shared_best_header.header.hash, hash(3));
}
