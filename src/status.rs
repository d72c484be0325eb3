use vstd::prelude::*;

verus! {

/// Outcome codes of message handling.
#[derive(Clone, Copy, Debug, PartialEq, Eq, Structural)]
pub enum StatusCode {
    OK,
    Ignored,
    ProtocolMessageIsMalformed,
    CompactBlockIsStaled,
    CompactBlockAlreadyStored,
    BlockIsInvalid,
    CompactBlockRequiresParent,
    CompactBlockIsAlreadyInFlight,
    CompactBlockIsAlreadyPending,
    CompactBlockHasInvalidHeader,
    CompactBlockMeetsShortIdsCollision,
    CompactBlockRequiresFreshTransactions,
    BlocksInFlightReachLimit,
    Network,
    TxPool,
}

/// The outcome of handling one message.
#[derive(Clone, Copy, Debug, PartialEq, Eq, Structural)]
pub struct Status {
    pub code: StatusCode,
}

impl Status {
    pub fn new(code: StatusCode) -> (r: Status)
        ensures
            r.code == code,
    {
        Status { code }
    }

    pub fn ok() -> (r: Status)
        ensures
            r.code == StatusCode::OK,
    {
        Status { code: StatusCode::OK }
    }

    pub fn ignored() -> (r: Status)
        ensures
            r.code == StatusCode::Ignored,
    {
        Status { code: StatusCode::Ignored }
    }

    pub fn code(&self) -> (r: StatusCode)
        ensures
            r == self.code,
    {
        self.code
    }

    /// Whether the peer broke the protocol, which alone earns it the full
    /// penalty: a malformed message or a header that fails verification.
    pub open spec fn spec_should_ban(self) -> bool {
        self.code is ProtocolMessageIsMalformed || self.code is CompactBlockHasInvalidHeader
    }

    pub fn should_ban(&self) -> (r: bool)
        ensures
            r == self.spec_should_ban(),
    {
        match self.code {
            StatusCode::ProtocolMessageIsMalformed | StatusCode::CompactBlockHasInvalidHeader => true,
            _ => false,
        }
    }
}

} // verus!
