//! Blocks as the sync engine sees them: numbers, hashes, headers and bodies.

use vstd::prelude::*;

verus! {

/// A field element of the chain, in two 128-bit halves.
#[derive(Clone, Copy, Debug, PartialEq, Eq, Hash, Structural)]
pub struct StarkFelt {
    pub high: u128,
    pub low: u128,
}

/// The number of a block in the chain; the first block has number zero.
#[derive(Clone, Copy, Debug, PartialEq, Eq, Hash, Structural)]
pub struct BlockNumber(pub u64);

impl BlockNumber {
    /// The number just below this one, if there is one.
    pub open spec fn spec_prev(self) -> Option<BlockNumber> {
        if self.0 == 0 {
            None
        } else {
            Some(BlockNumber((self.0 - 1) as u64))
        }
    }

    /// The number just above this one.
    pub open spec fn spec_next(self) -> BlockNumber {
        BlockNumber((self.0 + 1) as u64)
    }

    /// The number just below this one, or `None` at the first block.
    #[verifier::when_used_as_spec(spec_prev)]
    pub fn prev(self) -> (r: Option<BlockNumber>)
        ensures
            r == self.spec_prev(),
    {
        if self.0 == 0 {
            None
        } else {
            Some(BlockNumber(self.0 - 1))
        }
    }

    /// The number just above this one.
    #[verifier::when_used_as_spec(spec_next)]
    pub fn next(self) -> (r: BlockNumber)
        requires
            self.0 < u64::MAX,
        ensures
            r == self.spec_next(),
            r.0 == self.0 + 1,
    {
        BlockNumber(self.0 + 1)
    }

    /// The numbers from this one up to, and without, `up_to`, in ascending order.
    pub fn iter_up_to(self, up_to: BlockNumber) -> (r: Vec<BlockNumber>)
        ensures
            r@ == numbers_between(self.0 as int, up_to.0 as int),
    {
        let mut out: Vec<BlockNumber> = Vec::new();
        if up_to.0 <= self.0 {
            return out;
        }
        let mut n: u64 = self.0;
        while n < up_to.0
            invariant
                self.0 <= n <= up_to.0,
                out@ == numbers_between(self.0 as int, n as int),
            decreases up_to.0 - n,
        {
            out.push(BlockNumber(n));
            n = n + 1;
        }
        out
    }
}

/// The block numbers `lo, lo + 1, ..` below `hi`; empty when `hi <= lo`.
pub open spec fn numbers_between(lo: int, hi: int) -> Seq<BlockNumber> {
    Seq::new(
        if hi <= lo { 0nat } else { (hi - lo) as nat },
        |i: int| BlockNumber((lo + i) as u64),
    )
}

/// The digest that names a block.
#[derive(Clone, Copy, Debug, PartialEq, Eq, Hash, Structural)]
pub struct BlockHash(pub StarkFelt);

/// What a block says of itself and of the block before it.
#[derive(Clone, Copy, Debug, PartialEq, Eq, Structural)]
pub struct BlockHeader {
    pub block_hash: BlockHash,
    pub parent_hash: BlockHash,
    pub block_number: BlockNumber,
    pub gas_price: u128,
    pub state_root: StarkFelt,
    pub sequencer: StarkFelt,
    pub timestamp: u64,
}

/// The kinds of transaction a block can hold.
#[derive(Clone, Copy, Debug, PartialEq, Eq, Structural)]
pub enum TransactionKind {
    Declare,
    Deploy,
    DeployAccount,
    Invoke,
    L1Handler,
}

/// A transaction: its hash, its kind, and the rest of it as the feeder encoded it.
#[derive(Clone, Debug, PartialEq, Eq)]
pub struct Transaction {
    pub transaction_hash: StarkFelt,
    pub kind: TransactionKind,
    pub payload: Vec<u8>,
}

/// An event that a transaction emitted.
#[derive(Clone, Debug, PartialEq, Eq)]
pub struct Event {
    pub from_address: StarkFelt,
    pub keys: Vec<StarkFelt>,
    pub data: Vec<StarkFelt>,
}

/// What executing a transaction produced: the fee, the events, and the rest of
/// it as the feeder encoded it.
#[derive(Clone, Debug, PartialEq, Eq)]
pub struct TransactionOutput {
    pub kind: TransactionKind,
    pub actual_fee: u128,
    pub events: Vec<Event>,
    pub payload: Vec<u8>,
}

/// The transactions of a block, each with its output at the same index.
#[derive(Clone, Debug, PartialEq, Eq)]
pub struct BlockBody {
    pub transactions: Vec<Transaction>,
    pub transaction_outputs: Vec<TransactionOutput>,
}

/// A block: header and body.
#[derive(Clone, Debug, PartialEq, Eq)]
pub struct Block {
    pub header: BlockHeader,
    pub body: BlockBody,
}

} // verus!
