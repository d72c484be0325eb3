use vstd::prelude::*;

verus! {

/// A 32-byte hash, held as four little-endian 64-bit words.
#[derive(Clone, Copy, Debug, PartialEq, Eq, Structural, Hash)]
pub struct Byte32 {
    pub w0: u64,
    pub w1: u64,
    pub w2: u64,
    pub w3: u64,
}

impl Byte32 {
    /// The all-zero hash.
    pub fn zero() -> (r: Byte32)
        ensures
            r.w0 == 0 && r.w1 == 0 && r.w2 == 0 && r.w3 == 0,
    {
        Byte32 { w0: 0, w1: 0, w2: 0, w3: 0 }
    }
}

/// Identifier of a connected peer.
#[derive(Clone, Copy, Debug, PartialEq, Eq, Structural, Hash)]
pub struct PeerIndex(pub usize);

/// A capacity amount, in the chain's smallest unit.
pub type Capacity = u64;

/// A block or transaction version number.
pub type Version = u32;

/// Reference to one output of a transaction.
#[derive(Clone, Copy, Debug, PartialEq, Eq, Structural, Hash)]
pub struct OutPoint {
    pub tx_hash: Byte32,
    pub index: u32,
}

} // verus!

verus! {

/// Fingerprint of a transaction inside a compact block: the first six
/// bytes of its hash.
#[derive(Clone, Copy, Debug, PartialEq, Eq, Structural, Hash)]
pub struct ShortId(pub u64);

/// A block header as decoded from the wire, with its hash and the
/// difficulty that its compact target stands for.
#[derive(Clone, Copy, Debug, PartialEq, Eq, Structural)]
pub struct Header {
    pub hash: Byte32,
    pub parent_hash: Byte32,
    pub number: u64,
    pub timestamp: u64,
    pub compact_target: u32,
    pub difficulty: u64,
    pub version: Version,
    pub nonce: u128,
    pub transactions_root: Byte32,
}

impl Header {
    pub fn hash(&self) -> (r: Byte32)
        ensures
            r == self.hash,
    {
        self.hash
    }

    pub fn number(&self) -> (r: u64)
        ensures
            r == self.number,
    {
        self.number
    }
}

/// Total difficulty of a chain that extends `parent_total` by one block of
/// difficulty `difficulty`, pinned at the largest value rather than wrapping.
pub open spec fn extend_difficulty(parent_total: u128, difficulty: u64) -> u128 {
    if parent_total + difficulty > u128::MAX {
        u128::MAX
    } else {
        (parent_total + difficulty) as u128
    }
}

/// A header with the total difficulty of the chain that ends in it.
#[derive(Clone, Copy, Debug, PartialEq, Eq, Structural)]
pub struct HeaderView {
    pub header: Header,
    pub total_difficulty: u128,
}

impl HeaderView {
    /// The view of `header` on top of `parent`.
    pub fn extend(parent: &HeaderView, header: Header) -> (r: HeaderView)
        ensures
            r.header == header,
            r.total_difficulty == extend_difficulty(parent.total_difficulty, header.difficulty),
    {
        HeaderView {
            header,
            total_difficulty: parent.total_difficulty.saturating_add(header.difficulty as u128),
        }
    }
}

/// How far the node has got with a block. The first five states form a
/// chain in which each includes the ones before it; `BlockInvalid` stands
/// apart and, once reached, is never left.
#[derive(Clone, Copy, Debug, PartialEq, Eq, Structural)]
pub enum BlockStatus {
    Unknown,
    HeaderValid,
    BlockReceived,
    BlockStored,
    BlockValid,
    BlockInvalid,
}

impl BlockStatus {
    pub open spec fn rank(self) -> int {
        match self {
            BlockStatus::Unknown => 0,
            BlockStatus::HeaderValid => 1,
            BlockStatus::BlockReceived => 2,
            BlockStatus::BlockStored => 3,
            BlockStatus::BlockValid => 4,
            BlockStatus::BlockInvalid => -1,
        }
    }

    /// Whether the status includes every flag of `flag`.
    pub open spec fn spec_contains(self, flag: BlockStatus) -> bool {
        if flag is BlockInvalid {
            self is BlockInvalid
        } else if flag is Unknown {
            true
        } else {
            !(self is BlockInvalid) && self.rank() >= flag.rank()
        }
    }

    pub fn contains(&self, flag: BlockStatus) -> (r: bool)
        ensures
            r == self.spec_contains(flag),
    {
        let s: u8 = match self {
            BlockStatus::Unknown => 0,
            BlockStatus::HeaderValid => 1,
            BlockStatus::BlockReceived => 2,
            BlockStatus::BlockStored => 3,
            BlockStatus::BlockValid => 4,
            BlockStatus::BlockInvalid => 5,
        };
        match flag {
            BlockStatus::Unknown => true,
            BlockStatus::BlockInvalid => s == 5,
            BlockStatus::HeaderValid => 1 <= s && s <= 4,
            BlockStatus::BlockReceived => 2 <= s && s <= 4,
            BlockStatus::BlockStored => 3 <= s && s <= 4,
            BlockStatus::BlockValid => s == 4,
        }
    }
}

/// A transaction, known by its hash.
#[derive(Clone, Copy, Debug, PartialEq, Eq, Structural)]
pub struct Transaction {
    pub hash: Byte32,
}

pub open spec fn short_id_of(hash: Byte32) -> ShortId {
    ShortId((hash.w0 % 0x1_0000_0000_0000) as u64)
}

impl Transaction {
    pub fn proposal_short_id(&self) -> (r: ShortId)
        ensures
            r == short_id_of(self.hash),
    {
        ShortId(self.hash.w0 % 0x1_0000_0000_0000)
    }
}

/// A transaction sent in full inside a compact block, with its position
/// in the block.
#[derive(Clone, Copy, Debug, PartialEq, Eq, Structural)]
pub struct IndexTransaction {
    pub index: u32,
    pub transaction: Transaction,
}

/// A block announced by its header, the fingerprints of the transactions
/// the sender expects the receiver to hold, the transactions sent in full,
/// and the hashes of its uncles and its proposals.
#[derive(Clone, Debug)]
pub struct CompactBlock {
    pub header: Header,
    pub short_ids: Vec<ShortId>,
    pub prefilled_transactions: Vec<IndexTransaction>,
    pub uncles: Vec<Byte32>,
    pub proposals: Vec<ShortId>,
}

/// A full block.
#[derive(Clone, Debug)]
pub struct Block {
    pub header: Header,
    pub transactions: Vec<Transaction>,
    pub uncles: Vec<Header>,
    pub proposals: Vec<ShortId>,
}

} // verus!
