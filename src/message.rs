use vstd::prelude::*;
use crate::status::{Status, StatusCode};
use crate::types::{Block, Byte32, PeerIndex, ShortId};

verus! {

/// Something a handler asks its runner to do once it has decided.
#[derive(Clone, Debug)]
pub enum Action {
    /// Send `GetHeaders` with a locator built from the header `anchor`.
    GetHeaders { peer: PeerIndex, anchor: Byte32 },
    /// Ask for the listed transactions and uncles of a compact block.
    GetBlockTransactions {
        peer: PeerIndex,
        block_hash: Byte32,
        indexes: Vec<u32>,
        uncle_indexes: Vec<u32>,
    },
    /// Ask for the proposal transactions that a compact block names.
    GetBlockProposal { peer: PeerIndex, block_hash: Byte32, proposals: Vec<ShortId> },
    /// Hand a reconstructed block to the chain processor.
    AcceptBlock { peer: PeerIndex, block: Block },
    /// Close the connection to a peer.
    Disconnect { peer: PeerIndex },
}

/// What handling a message decided: its status and what to do next.
#[derive(Debug)]
pub struct Outcome {
    pub status: Status,
    pub actions: Vec<Action>,
}

/// Whether a failed delivery of `a` is reported to the sender's handler:
/// the transaction request and the disconnect are; the header request
/// and the proposal request are best effort.
pub open spec fn reports_failure(a: Action) -> bool {
    a is GetBlockTransactions || a is Disconnect
}

/// The final status of a message once its actions were carried out:
/// `Network` when a reported action could not be delivered, else the
/// status the handler decided. A failed delivery changes no state.
pub fn settle(status: Status, actions: &Vec<Action>, delivered: bool) -> (r: Status)
    ensures
        r.code == if !delivered && exists|i: int| 0 <= i < actions@.len() && reports_failure(#[trigger] actions@[i]) {
            StatusCode::Network
        } else {
            status.code
        },
{
    if delivered {
        return status;
    }
    let mut i: usize = 0;
    while i < actions.len()
        invariant
            i <= actions@.len(),
            forall|j: int| 0 <= j < i ==> !reports_failure(#[trigger] actions@[j]),
            !delivered,
        decreases actions@.len() - i,
    {
        match &actions[i] {
            Action::GetBlockTransactions { .. } | Action::Disconnect { .. } => {
                assert(reports_failure(actions@[i as int]));
                return Status::new(StatusCode::Network);
            },
            _ => {},
        }
        i = i + 1;
    }
    status
}

} // verus!
