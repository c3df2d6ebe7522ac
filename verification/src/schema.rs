//! Runtime schema descriptors: which columns a dataset outputs, and which
//! physical encoding each wide-integer column uses.

use vstd::prelude::*;

verus! {

/// The physical encoding of a wide-integer column, resolved once per column
/// from the schema and applied uniformly to every row.
#[derive(Clone, Copy, Debug, PartialEq, Eq, Structural)]
pub enum Encoding {
    /// Raw big-endian bytes.
    Binary,
    /// Fixed-width lower-case hex string with a `0x` prefix.
    Hex,
    /// Decimal string without leading zeros.
    Decimal,
    /// High and low 64-bit words; only values below 2^128 are representable.
    Words,
}

/// Column selection for the blocks dataset. A `false` (or `None`) column is
/// never populated nor materialized; a wide column's `Some(encoding)` both
/// enables it and fixes its encoding.
#[derive(Clone, Copy, Debug, PartialEq, Eq, Structural)]
pub struct BlockSchema {
    pub hash: bool,
    pub parent_hash: bool,
    pub author: bool,
    pub state_root: bool,
    pub transactions_root: bool,
    pub receipts_root: bool,
    pub block_number: bool,
    pub gas_used: bool,
    pub extra_data: bool,
    pub logs_bloom: bool,
    pub timestamp: bool,
    pub total_difficulty: Option<Encoding>,
    pub size: bool,
    pub base_fee_per_gas: bool,
}

impl BlockSchema {
    /// A schema with every column enabled, wide columns in the given
    /// encoding.
    pub fn full(enc: Encoding) -> (r: BlockSchema)
        ensures
            r == (BlockSchema {
                hash: true,
                parent_hash: true,
                author: true,
                state_root: true,
                transactions_root: true,
                receipts_root: true,
                block_number: true,
                gas_used: true,
                extra_data: true,
                logs_bloom: true,
                timestamp: true,
                total_difficulty: Some(enc),
                size: true,
                base_fee_per_gas: true,
            }),
    {
        BlockSchema {
            hash: true,
            parent_hash: true,
            author: true,
            state_root: true,
            transactions_root: true,
            receipts_root: true,
            block_number: true,
            gas_used: true,
            extra_data: true,
            logs_bloom: true,
            timestamp: true,
            total_difficulty: Some(enc),
            size: true,
            base_fee_per_gas: true,
        }
    }
}

/// Column selection for the transactions dataset.
#[derive(Clone, Copy, Debug, PartialEq, Eq, Structural)]
pub struct TransactionSchema {
    pub block_number: bool,
    pub transaction_index: bool,
    pub transaction_hash: bool,
}

impl TransactionSchema {
    pub fn full() -> (r: TransactionSchema)
        ensures
            r == (TransactionSchema {
                block_number: true,
                transaction_index: true,
                transaction_hash: true,
            }),
    {
        TransactionSchema { block_number: true, transaction_index: true, transaction_hash: true }
    }
}

/// Column selection for the balance-diffs dataset.
#[derive(Clone, Copy, Debug, PartialEq, Eq, Structural)]
pub struct BalanceDiffSchema {
    pub block_number: bool,
    pub transaction_index: bool,
    pub transaction_hash: bool,
    pub address: bool,
    pub from_value: Option<Encoding>,
    pub to_value: Option<Encoding>,
}

impl BalanceDiffSchema {
    pub fn full(enc: Encoding) -> (r: BalanceDiffSchema)
        ensures
            r == (BalanceDiffSchema {
                block_number: true,
                transaction_index: true,
                transaction_hash: true,
                address: true,
                from_value: Some(enc),
                to_value: Some(enc),
            }),
    {
        BalanceDiffSchema {
            block_number: true,
            transaction_index: true,
            transaction_hash: true,
            address: true,
            from_value: Some(enc),
            to_value: Some(enc),
        }
    }
}

/// One schema descriptor per requested dataset, loaded before any extraction
/// begins and immutable thereafter.
#[derive(Clone, Copy, Debug, PartialEq, Eq, Structural)]
pub struct Schemas {
    pub blocks: Option<BlockSchema>,
    pub transactions: Option<TransactionSchema>,
    pub balance_diffs: Option<BalanceDiffSchema>,
}

} // verus!
