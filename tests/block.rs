use ckb_sync::block_process::BlockProcess;
use ckb_sync::error::{BlockError, BlockErrorKind, Context, Error};
use ckb_sync::message::Action;
use ckb_sync::shared::{Consensus, SyncShared};
use ckb_sync::status::StatusCode;
use ckb_sync::types::{Block, BlockStatus, Byte32, Header, PeerIndex};

fn hash(n: u64) -> Byte32 {
    Byte32 { w0: n, w1: 0, w2: 0, w3: 0 }
}

fn header(h: u64, parent: u64, number: u64) -> Header {
    Header {
        hash: hash(h),
        parent_hash: hash(parent),
        number,
        timestamp: 1_000,
        compact_target: 0,
        difficulty: 10,
        version: 0,
        nonce: 0,
        transactions_root: Byte32::zero(),
    }
}

fn block(h: Header) -> Block {
    Block { header: h, transactions: Vec::new(), uncles: Vec::new(), proposals: Vec::new() }
}

fn shared() -> SyncShared {
    let c = Consensus { max_uncles_num: 2, max_block_proposals_limit: 10, median_time_block_count: 37 };
    SyncShared::new(c, header(1, 0, 0), 1800, 64, 16)
}

#[test]
fn first_receipt_is_handed_on() {
    let mut s = shared();
    let out = BlockProcess::new(block(header(2, 1, 1)), PeerIndex(1)).execute(&mut s);
    assert_eq!(out.status.code, StatusCode::OK);
    assert_eq!(out.actions.len(), 1);
    assert!(matches!(&out.actions[0], Action::AcceptBlock { peer, block } if *peer == PeerIndex(1) && block.header.hash == hash(2)));
    // A second copy is not handed on.
    let again = BlockProcess::new(block(header(2, 1, 1)), PeerIndex(2)).execute(&mut s);
    assert_eq!(again.status.code, StatusCode::OK);
    assert!(again.actions.is_empty());
    assert_eq!(BlockProcess::processed(&mut s, hash(2), Ok(())).code, StatusCode::OK);
    assert_eq!(s.get_block_status(&hash(2)), BlockStatus::Unknown);
}

#[test]
fn rejected_block_marked_invalid() {
    let mut s = shared();
    let err = Error::Block(BlockError { kind: Context { kind: BlockErrorKind::InvalidDAO, cause: None } });
    let out = BlockProcess::new(block(header(3, 1, 1)), PeerIndex(1)).execute(&mut s);
    assert_eq!(out.actions.len(), 1);
    let st = BlockProcess::processed(&mut s, hash(3), Err(err));
    assert_eq!(st.code, StatusCode::BlockIsInvalid);
    assert!(!st.should_ban());
    assert_eq!(s.get_block_status(&hash(3)), BlockStatus::BlockInvalid);
    assert_eq!(*err_kind(&err), BlockErrorKind::InvalidDAO);
}

fn err_kind(e: &Error) -> &BlockErrorKind {
    match e {
        Error::Block(b) => b.kind(),
        _ => panic!("not a block error"),
    }
}

#[test]
fn invalid_block_status_does_not_ban() {
    let st = ckb_sync::status::Status::new(StatusCode::BlockIsInvalid);
    assert!(!st.should_ban());
    assert!(ckb_sync::status::Status::new(StatusCode::ProtocolMessageIsMalformed).should_ban());
    assert!(!ckb_sync::status::Status::ok().should_ban());
}
