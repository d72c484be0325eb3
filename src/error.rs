use vstd::prelude::*;
use crate::types::{Byte32, Capacity, OutPoint, Version};

verus! {

/// The part of a transaction that a transaction error points at.
#[derive(Clone, Copy, Debug, PartialEq, Eq, Structural)]
pub enum TransactionErrorSource {
    CellDeps,
    HeaderDeps,
    Inputs,
    Outputs,
    OutputsData,
    Witnesses,
}

/// Reasons a transaction fails verification.
#[derive(Clone, Copy, Debug, PartialEq, Eq, Structural)]
pub enum TransactionError {
    /// An output occupies more capacity than it holds.
    InsufficientCellCapacity {
        source: TransactionErrorSource,
        index: usize,
        occupied_capacity: Capacity,
        capacity: Capacity,
    },
    /// The outputs hold more capacity than the inputs.
    OutputsSumOverflow { inputs_sum: Capacity, outputs_sum: Capacity },
    /// Inputs or outputs are empty.
    Empty { source: TransactionErrorSource },
    /// A cell dep appears twice.
    DuplicateCellDeps { out_point: OutPoint },
    /// A header dep appears twice.
    DuplicateHeaderDeps { hash: Byte32 },
    /// Outputs and outputs data differ in length.
    OutputsDataLengthMismatch { outputs_len: usize, outputs_data_len: usize },
    /// The `since` field of an input is malformed.
    InvalidSince { index: usize },
    /// An input is not yet mature under its `since` requirement.
    Immature { index: usize },
    /// A cellbase output is spent before maturity.
    CellbaseImmaturity { source: TransactionErrorSource, index: usize },
    /// The version differs from the supported one.
    MismatchedVersion { expected: Version, actual: Version },
    /// The serialised transaction is larger than a block allows.
    ExceededMaximumBlockBytes { limit: u64, actual: u64 },
}

/// Whether a transaction error shows the transaction itself is malformed,
/// as opposed to merely not valid yet in the current chain context.
pub open spec fn malformed_tx(e: TransactionError) -> bool {
    match e {
        TransactionError::Immature { .. }
        | TransactionError::CellbaseImmaturity { .. }
        | TransactionError::MismatchedVersion { .. } => false,
        _ => true,
    }
}

impl TransactionError {
    pub fn is_malformed_tx(&self) -> (r: bool)
        ensures
            r == malformed_tx(*self),
    {
        match self {
            TransactionError::OutputsSumOverflow { .. }
            | TransactionError::DuplicateCellDeps { .. }
            | TransactionError::DuplicateHeaderDeps { .. }
            | TransactionError::Empty { .. }
            | TransactionError::InsufficientCellCapacity { .. }
            | TransactionError::InvalidSince { .. }
            | TransactionError::ExceededMaximumBlockBytes { .. }
            | TransactionError::OutputsDataLengthMismatch { .. } => true,
            TransactionError::Immature { .. }
            | TransactionError::CellbaseImmaturity { .. }
            | TransactionError::MismatchedVersion { .. } => false,
        }
    }
}

/// Which header rule an error belongs to.
#[derive(Clone, Copy, Debug, PartialEq, Eq, Structural)]
pub enum HeaderErrorKind {
    InvalidParent,
    Pow,
    Timestamp,
    Number,
    Epoch,
    Version,
}

/// Which block rule an error belongs to.
#[derive(Clone, Copy, Debug, PartialEq, Eq, Structural)]
pub enum BlockErrorKind {
    ProposalTransactionDuplicate,
    /// There are duplicate committed transactions.
    CommitTransactionDuplicate,
    /// The Merkle root of proposed transactions differs from the header's.
    ProposalTransactionsHash,
    /// The Merkle root of committed transactions differs from the header's.
    TransactionsRoot,
    /// The DAO field of the header is invalid.
    InvalidDAO,
    /// A committed transaction fails verification.
    BlockTransactions,
    UnknownParent,
    Uncles,
    Cellbase,
    /// Committed transactions break the propose-then-commit rule.
    Commit,
    ExceededMaximumProposalsLimit,
    ExceededMaximumCycles,
    ExceededMaximumBlockBytes,
}

/// The first failing transaction of a block, by position.
#[derive(Clone, Copy, Debug, PartialEq, Eq, Structural)]
pub struct BlockTransactionsError {
    pub index: u32,
    pub error: TransactionError,
}

/// A block or header refers to a parent that is not known.
#[derive(Clone, Copy, Debug, PartialEq, Eq, Structural)]
pub struct UnknownParentError {
    pub parent_hash: Byte32,
}

#[derive(Clone, Copy, Debug, PartialEq, Eq, Structural)]
pub enum CommitError {
    AncestorNotFound,
    Invalid,
}

#[derive(Clone, Copy, Debug, PartialEq, Eq, Structural)]
pub enum CellbaseError {
    InvalidInput,
    InvalidRewardAmount,
    InvalidRewardTarget,
    InvalidWitness,
    InvalidTypeScript,
    InvalidOutputQuantity,
    InvalidQuantity,
    InvalidPosition,
    InvalidOutputData,
}

#[derive(Clone, Copy, Debug, PartialEq, Eq, Structural)]
pub enum UnclesError {
    OverCount { max: u32, actual: u32 },
    InvalidDepth { max: u64, min: u64, actual: u64 },
    InvalidHash { expected: Byte32, actual: Byte32 },
    InvalidNumber,
    InvalidTarget,
    InvalidDifficultyEpoch,
    ProposalsHash,
    ProposalDuplicate,
    Duplicate(Byte32),
    DoubleInclusion(Byte32),
    DescendantLimit,
    ExceededMaximumProposalsLimit,
}

/// The header's version differs from the expected one.
#[derive(Clone, Copy, Debug, PartialEq, Eq, Structural)]
pub struct BlockVersionError {
    pub expected: Version,
    pub actual: Version,
}

/// The header's parent is known to be invalid.
#[derive(Clone, Copy, Debug, PartialEq, Eq, Structural)]
pub struct InvalidParentError {
    pub parent_hash: Byte32,
}

#[derive(Clone, Copy, Debug, PartialEq, Eq, Structural)]
pub enum PowError {
    Boundary { expected: Byte32, actual: Byte32 },
    InvalidNonce,
}

/// The header's timestamp lies outside the admitted window.
#[derive(Clone, Copy, Debug, PartialEq, Eq, Structural)]
pub enum TimestampError {
    BlockTimeTooOld { min: u64, actual: u64 },
    BlockTimeTooNew { max: u64, actual: u64 },
}

impl TimestampError {
    pub open spec fn spec_is_too_new(self) -> bool {
        self is BlockTimeTooNew
    }

    pub fn is_too_new(&self) -> (r: bool)
        ensures
            r == self.spec_is_too_new(),
    {
        match self {
            TimestampError::BlockTimeTooOld { .. } => false,
            TimestampError::BlockTimeTooNew { .. } => true,
        }
    }
}

#[derive(Clone, Copy, Debug, PartialEq, Eq, Structural)]
pub struct NumberError {
    pub expected: u64,
    pub actual: u64,
}

#[derive(Clone, Copy, Debug, PartialEq, Eq, Structural)]
pub enum EpochError {
    TargetMismatch { expected: u32, actual: u32 },
    NumberMismatch { expected: u64, actual: u64 },
}

/// The detailed error beneath a kind: what a kind was raised with.
#[derive(Clone, Copy, Debug, PartialEq, Eq, Structural)]
pub enum Cause {
    Timestamp(TimestampError),
    Pow(PowError),
    Number(NumberError),
    Epoch(EpochError),
    Version(BlockVersionError),
    InvalidParent(InvalidParentError),
    UnknownParent(UnknownParentError),
    Uncles(UnclesError),
    Cellbase(CellbaseError),
    Commit(CommitError),
    Transactions(BlockTransactionsError),
}

/// An error kind together with the detailed error it was raised with, if any.
#[derive(Clone, Copy, Debug, PartialEq, Eq, Structural)]
pub struct Context<K> {
    pub kind: K,
    pub cause: Option<Cause>,
}

impl<K> Context<K> {
    pub fn get_context(&self) -> (r: &K)
        ensures
            *r == self.kind,
    {
        &self.kind
    }
}

/// A header that breaks a consensus rule.
#[derive(Clone, Copy, Debug, PartialEq, Eq, Structural)]
pub struct HeaderError {
    pub kind: Context<HeaderErrorKind>,
}

/// Whether the cause is a timestamp too far in the future.
pub open spec fn cause_too_new(c: Option<Cause>) -> bool {
    match c {
        Some(Cause::Timestamp(t)) => t.spec_is_too_new(),
        _ => false,
    }
}

impl HeaderError {
    pub open spec fn spec_is_too_new(self) -> bool {
        cause_too_new(self.kind.cause)
    }

    pub fn kind(&self) -> (r: &HeaderErrorKind)
        ensures
            *r == self.kind.kind,
    {
        self.kind.get_context()
    }

    /// The detailed error that the kind was raised with.
    pub fn downcast_ref(&self) -> (r: Option<&Cause>)
        ensures
            r is None <==> self.kind.cause is None,
            r matches Some(c) ==> self.kind.cause == Some(*c),
    {
        self.kind.cause.as_ref()
    }

    pub fn inner(&self) -> (r: &Context<HeaderErrorKind>)
        ensures
            *r == self.kind,
    {
        &self.kind
    }

    /// A too-new timestamp is the one header error that may heal by itself:
    /// the header can become valid later, so its sender is not penalised.
    pub fn is_too_new(&self) -> (r: bool)
        ensures
            r == self.spec_is_too_new(),
    {
        match self.downcast_ref() {
            Some(Cause::Timestamp(t)) => t.is_too_new(),
            _ => false,
        }
    }
}

impl From<HeaderErrorKind> for HeaderError {
    fn from(kind: HeaderErrorKind) -> (r: HeaderError) {
        HeaderError { kind: Context { kind, cause: None } }
    }
}

impl vstd::std_specs::convert::FromSpecImpl<HeaderErrorKind> for HeaderError {
    open spec fn obeys_from_spec() -> bool {
        true
    }

    open spec fn from_spec(kind: HeaderErrorKind) -> HeaderError {
        HeaderError { kind: Context { kind, cause: None } }
    }
}

impl From<TimestampError> for HeaderError {
    fn from(e: TimestampError) -> (r: HeaderError) {
        HeaderError { kind: Context { kind: HeaderErrorKind::Timestamp, cause: Some(Cause::Timestamp(e)) } }
    }
}

impl vstd::std_specs::convert::FromSpecImpl<TimestampError> for HeaderError {
    open spec fn obeys_from_spec() -> bool {
        true
    }

    open spec fn from_spec(e: TimestampError) -> HeaderError {
        HeaderError { kind: Context { kind: HeaderErrorKind::Timestamp, cause: Some(Cause::Timestamp(e)) } }
    }
}

/// A block that breaks a consensus rule.
#[derive(Clone, Copy, Debug, PartialEq, Eq, Structural)]
pub struct BlockError {
    pub kind: Context<BlockErrorKind>,
}

impl BlockError {
    pub fn kind(&self) -> (r: &BlockErrorKind)
        ensures
            *r == self.kind.kind,
    {
        self.kind.get_context()
    }

    /// The detailed error that the kind was raised with.
    pub fn downcast_ref(&self) -> (r: Option<&Cause>)
        ensures
            r is None <==> self.kind.cause is None,
            r matches Some(c) ==> self.kind.cause == Some(*c),
    {
        self.kind.cause.as_ref()
    }

    pub fn inner(&self) -> (r: &Context<BlockErrorKind>)
        ensures
            *r == self.kind,
    {
        &self.kind
    }
}

/// Any error that verification of a header or block reports.
#[derive(Clone, Copy, Debug, PartialEq, Eq, Structural)]
pub enum Error {
    Header(HeaderError),
    Block(BlockError),
    Transaction(TransactionError),
    UnknownParent(UnknownParentError),
}

impl Error {
    pub open spec fn spec_is_too_new(self) -> bool {
        match self {
            Error::Header(e) => e.spec_is_too_new(),
            _ => false,
        }
    }

    /// Whether this is a header error for a timestamp too far ahead.
    pub fn is_too_new(&self) -> (r: bool)
        ensures
            r == self.spec_is_too_new(),
    {
        match self {
            Error::Header(e) => e.is_too_new(),
            _ => false,
        }
    }
}

} // verus!
