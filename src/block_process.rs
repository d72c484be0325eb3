use vstd::prelude::*;
use crate::error::Error;
use crate::headers_process::invalid_kept;
use crate::shared::{best_known_monotone, next_status, SyncShared};
use crate::message::{Action, Outcome};
use crate::status::{Status, StatusCode};
use crate::types::{Block, BlockStatus, Byte32, PeerIndex};

verus! {

/// Handles a `SendBlock` message: a full block from one peer.
pub struct BlockProcess {
    pub block: Block,
    pub peer: PeerIndex,
}

impl BlockProcess {
    pub fn new(block: Block, peer: PeerIndex) -> (r: BlockProcess)
        ensures
            r.block == block,
            r.peer == peer,
    {
        BlockProcess { block, peer }
    }

    /// Records the block's arrival and, at its first arrival only, asks
    /// for it to be handed to the chain processor. Its sender is never
    /// penalised here.
    pub fn execute(self, shared: &mut SyncShared) -> (r: Outcome)
        requires
            old(shared).wf(),
        ensures
            final(shared).wf(),
            r.status.code is OK,
            !old(shared).received_has(self.block.header.hash) ==> r.actions@.len() == 1
                && r.actions@[0] == (Action::AcceptBlock { peer: self.peer, block: self.block }),
            old(shared).received_has(self.block.header.hash) ==> r.actions@.len() == 0,
            final(shared).received_has(self.block.header.hash),
            forall|x: Byte32| x != self.block.header.hash ==> final(shared).received_has(x) == old(shared).received_has(x),
            final(shared).same_chain(*old(shared)),
            final(shared).same_setting(*old(shared)),
            final(shared).same_peers(*old(shared)),
            final(shared).inflight@ == old(shared).inflight@,
            final(shared).pending_blocks@ == old(shared).pending_blocks@,
            final(shared).pending_peers@ == old(shared).pending_peers@,
    {
        let mut actions: Vec<Action> = Vec::new();
        if shared.new_block_received(self.block.header.hash) {
            actions.push(Action::AcceptBlock { peer: self.peer, block: self.block });
        }
        Outcome { status: Status::ok(), actions }
    }

    /// Applies what the chain processor made of the block `hash` that
    /// `execute` handed on: a rejected block is marked invalid.
    pub fn processed(shared: &mut SyncShared, hash: Byte32, processed: Result<(), Error>) -> (r: Status)
        requires
            old(shared).wf(),
        ensures
            final(shared).wf(),
            r.code == if processed is Err {
                StatusCode::BlockIsInvalid
            } else {
                StatusCode::OK
            },
            forall|x: Byte32| #[trigger]
                final(shared).status_of(x) == if x == hash && processed is Err {
                    next_status(old(shared).status_of(x), BlockStatus::BlockInvalid)
                } else {
                    old(shared).status_of(x)
                },
            invalid_kept(*old(shared), *final(shared)),
            best_known_monotone(*old(shared), *final(shared)),
            final(shared).headers@ == old(shared).headers@,
            final(shared).shared_best_header == old(shared).shared_best_header,
            final(shared).same_setting(*old(shared)),
            final(shared).same_peers(*old(shared)),
            final(shared).same_requests(*old(shared)),
    {
        if processed.is_err() {
            shared.insert_block_status(hash, BlockStatus::BlockInvalid);
            return Status::new(StatusCode::BlockIsInvalid);
        }
        Status::ok()
    }
}

} // verus!
