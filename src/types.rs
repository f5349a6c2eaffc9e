use vstd::prelude::*;

verus! {

/// A 256-bit hash, as its 32 bytes in big-endian order.
pub type H256 = [u8; 32];

/// A 160-bit Ethereum address, as its 20 bytes.
pub type H160 = [u8; 20];

/// A 256-bit unsigned integer, as four 64-bit limbs, least significant first.
pub type U256 = [u64; 4];

/// Serial id of a priority operation, assigned by the contract.
pub type SerialId = u64;

/// A priority operation (deposit, full exit) observed in the contract's logs.
#[derive(Debug, Clone, Copy, PartialEq, Eq)]
pub struct PriorityOp {
    /// Strictly increasing id in the order the contract emitted the operations.
    pub serial_id: SerialId,
    /// Block in which the Ethereum transaction was included.
    pub eth_block: u64,
    /// Cost of the operation in chunks, used to batch operations downstream.
    pub chunks: usize,
}

/// Payload of a user registration; the event carries no decoded fields yet.
#[derive(Debug, Clone, Copy, PartialEq, Eq)]
pub struct FluidexRegUserOp {}

/// A user registration observed in the contract's logs.
#[derive(Debug, Clone, Copy)]
pub struct RegUserOp {
    /// register_user operation.
    pub data: FluidexRegUserOp,
    /// Hash of the corresponding Ethereum transaction.
    pub eth_hash: H256,
    /// Block in which the Ethereum transaction was included.
    pub eth_block: u64,
}

/// The fields of an Ethereum log that event decoding reads.
#[derive(Debug, Clone, Copy)]
pub struct EventLog {
    /// Hash of the transaction that emitted the log, absent for pending logs.
    pub transaction_hash: Option<H256>,
    /// Block holding the transaction, absent for pending logs.
    pub block_number: Option<u64>,
}

impl RegUserOp {
    /// Decodes a user registration from a mined log.
    pub fn from_log(event: EventLog) -> (r: RegUserOp)
        requires
            event.transaction_hash is Some,
            event.block_number is Some,
        ensures
            r.eth_hash == event.transaction_hash.unwrap(),
            r.eth_block == event.block_number.unwrap(),
    {
        RegUserOp {
            data: FluidexRegUserOp {},
            eth_hash: event.transaction_hash.unwrap(),
            eth_block: event.block_number.unwrap(),
        }
    }
}

} // verus!
