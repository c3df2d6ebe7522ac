//! Request units, fetch requests, dataset tags, and the error taxonomy.

use vstd::prelude::*;

verus! {

/// Errors raised while extracting or transforming one request unit.
///
/// `NotFound`: the request unit was valid but the referenced entity does not
/// exist at the data source. `TransportError`: connectivity or protocol
/// failure of the fetch capability, propagated unchanged. `MissingField`: a
/// response was fetched but lacks a field the dataset treats as structurally
/// required. `EncodingError`: a value cannot be represented in its column's
/// configured encoding.
#[derive(Clone, Copy, Debug, PartialEq, Eq, Structural)]
pub enum CollectError {
    NotFound,
    TransportError,
    MissingField,
    EncodingError,
}

/// Error raised by table materialization.
#[derive(Clone, Copy, Debug, PartialEq, Eq, Structural)]
pub enum MaterializeError {
    LengthMismatch,
}

/// Stable tag identifying one dataset.
#[derive(Clone, Copy, Debug, PartialEq, Eq, Structural)]
pub enum Datatype {
    Blocks,
    Transactions,
    BalanceDiffs,
}

/// One addressable unit of work: exactly one addressing mode is active.
pub enum RequestUnit {
    ByBlock(u64),
    ByTransaction(Vec<u8>),
}

impl RequestUnit {
    /// A transaction hash is a 32-byte value.
    pub open spec fn wf(&self) -> bool {
        match self {
            RequestUnit::ByBlock(_) => true,
            RequestUnit::ByTransaction(h) => h@.len() == 32,
        }
    }
}

/// One underlying call the fetch capability is asked to perform.
///
/// The extract step functions return these; the surrounding (unverified)
/// driver performs the call and hands the payload back.
pub enum FetchRequest {
    BlockByNumber(u64),
    BlockWithTransactionsByNumber(u64),
    TransactionByHash(Vec<u8>),
    BlockByHash(Vec<u8>),
    BlockStateDiffs(u64),
    TransactionStateDiffs(Vec<u8>),
}

} // verus!
