use ckb_sync::shared::{Consensus, PeerFlags, SyncShared};
use ckb_sync::types::{BlockStatus, Byte32, Header, HeaderView, PeerIndex};

fn hash(n: u64) -> Byte32 {
    Byte32 { w0: n, w1: 0, w2: 0, w3: 0 }
}

fn header(h: u64, parent: u64, difficulty: u64) -> Header {
    Header {
        hash: hash(h),
        parent_hash: hash(parent),
        number: h,
        timestamp: 1_000,
        compact_target: 0,
        difficulty,
        version: 0,
        nonce: 0,
        transactions_root: Byte32::zero(),
    }
}

fn shared() -> SyncShared {
    let c = Consensus { max_uncles_num: 2, max_block_proposals_limit: 10, median_time_block_count: 37 };
    SyncShared::new(c, header(1, 0, 5), 1800, 3, 2)
}

fn flags() -> PeerFlags {
    PeerFlags { is_outbound: false, is_protect: false, is_whitelist: false }
}

#[test]
fn misbehavior_saturates() {
    let mut s = shared();
    let p = PeerIndex(1);
    s.add_peer(p, flags());
    s.misbehavior(p, 20);
    assert_eq!(s.get_peer_state(p).unwrap().misbehavior, 20);
    s.misbehavior(p, u32::MAX - 5);
    assert_eq!(s.get_peer_state(p).unwrap().misbehavior, u32::MAX);
    s.misbehavior(p, 1);
    assert_eq!(s.get_peer_state(p).unwrap().misbehavior, u32::MAX);
    // An unknown peer is left alone.
    s.misbehavior(PeerIndex(9), 1);
    assert!(s.get_peer_state(PeerIndex(9)).is_none());
}

#[test]
fn best_known_never_loses_work() {
    let mut s = shared();
    let p = PeerIndex(1);
    s.add_peer(p, flags());
    let heavy = HeaderView { header: header(7, 1, 0), total_difficulty: 500 };
    let light = HeaderView { header: header(8, 1, 0), total_difficulty: 100 };
    s.may_set_best_known_header(p, heavy);
    s.may_set_best_known_header(p, light);
    assert_eq!(s.get_best_known_header(p).unwrap().total_difficulty, 500);
    let heavier = HeaderView { header: header(9, 1, 0), total_difficulty: 501 };
    s.may_set_best_known_header(p, heavier);
    assert_eq!(s.get_best_known_header(p).unwrap().header.hash, hash(9));
}

#[test]
fn one_request_per_peer_and_block() {
    let mut s = shared();
    let p = PeerIndex(1);
    assert!(s.compact_reconstruct(p, hash(2)));
    assert!(!s.compact_reconstruct(p, hash(2)));
    assert!(s.compact_reconstruct(PeerIndex(2), hash(2)));
    assert!(s.compact_reconstruct(p, hash(3)));
    assert_eq!(s.inflight_count_of(p), 2);
    // Global cap of three reached.
    assert!(!s.compact_reconstruct(PeerIndex(3), hash(4)));
    assert_eq!(s.inflight.len(), 3);
}

#[test]
fn per_peer_cap() {
    let mut s = shared();
    let p = PeerIndex(1);
    assert!(s.compact_reconstruct(p, hash(2)));
    assert!(s.compact_reconstruct(p, hash(3)));
    assert!(!s.compact_reconstruct(p, hash(4)));
    assert!(!s.inflight_compact_contains(p, &hash(4)));
}

#[test]
fn invalid_status_is_terminal() {
    let mut s = shared();
    s.insert_block_status(hash(5), BlockStatus::BlockInvalid);
    s.insert_block_status(hash(5), BlockStatus::HeaderValid);
    assert_eq!(s.get_block_status(&hash(5)), BlockStatus::BlockInvalid);
    assert!(s.contains_block_status(&hash(5), BlockStatus::BlockInvalid));
    s.insert_block_status(hash(6), BlockStatus::BlockStored);
    assert!(s.contains_block_status(&hash(6), BlockStatus::HeaderValid));
    assert!(!s.contains_block_status(&hash(6), BlockStatus::BlockValid));
}

#[test]
fn header_chain_total_difficulty() {
    let mut s = shared();
    let p = PeerIndex(1);
    s.add_peer(p, flags());
    s.insert_valid_header(p, header(2, 1, 7));
    s.insert_valid_header(p, header(3, 2, 11));
    assert_eq!(s.get_header_view(&hash(3)).unwrap().total_difficulty, 23);
    assert_eq!(s.get_best_known_header(p).unwrap().total_difficulty, 23);
    assert_eq!(s.get_block_status(&hash(3)), BlockStatus::HeaderValid);
    assert_eq!(s.get_block_status(&hash(1)), BlockStatus::BlockValid);
}

#[test]
fn total_difficulty_saturates() {
    let parent = HeaderView { header: header(1, 0, 0), total_difficulty: u128::MAX - 3 };
    let v = HeaderView::extend(&parent, header(2, 1, 10));
    assert_eq!(v.total_difficulty, u128::MAX);
}

#[test]
fn pending_cache_insert_and_remove() {
    let mut s = shared();
    let p = PeerIndex(1);
    let q = PeerIndex(2);
    let cb = ckb_sync::types::CompactBlock {
        header: header(2, 1, 1),
        short_ids: Vec::new(),
        prefilled_transactions: Vec::new(),
        uncles: Vec::new(),
        proposals: Vec::new(),
    };
    s.insert_pending(hash(2), cb.clone(), p, vec![1], vec![]);
    s.insert_pending(hash(2), cb.clone(), q, vec![2], vec![0]);
    assert_eq!(s.pending_blocks.len(), 1);
    // A second record for the same pair replaces the first.
    s.insert_pending(hash(2), cb, p, vec![3, 4], vec![1]);
    assert_eq!(s.pending_peers.len(), 2);
    let rec = s.pending_peers.iter().find(|r| r.peer == p).unwrap();
    assert_eq!(rec.missing_transactions, vec![3, 4]);
    assert_eq!(rec.missing_uncles, vec![1]);
    assert!(s.is_pending(&hash(2), p) && s.is_pending(&hash(2), q));
    s.remove_pending(&hash(2));
    assert!(!s.is_pending(&hash(2), p));
    assert!(s.pending_header(&hash(2)).is_none());
}

#[test]
fn new_block_received_once() {
    let mut s = shared();
    assert!(s.new_block_received(hash(4)));
    assert!(!s.new_block_received(hash(4)));
    assert!(s.new_block_received(hash(5)));
}
