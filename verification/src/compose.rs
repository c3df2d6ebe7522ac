//! Dataset composition: one driving fetch, fanned out to several constituent
//! transforms, producing one table per constituent tag.

use crate::blocks::block_step;
use crate::blocks::block_row_err;
use crate::blocks::process_block;
use crate::blocks::BlockColumns;
use crate::blocks::BlockData;
use crate::schema::Encoding;
use crate::schema::Schemas;
use crate::table::DataTable;
use crate::transactions::process_transactions;
use crate::transactions::transactions_by_block_request;
use crate::transactions::transactions_step;
use crate::transactions::TransactionColumns;
use crate::types::CollectError;
use crate::types::Datatype;
use crate::types::FetchRequest;
use crate::types::MaterializeError;
use crate::types::RequestUnit;
use vstd::prelude::*;

verus! {

/// The composed accumulator: the ordered tuple of the constituents'
/// accumulators. Constituents never observe each other's state.
pub struct BlocksAndTransactionsColumns(pub BlockColumns, pub TransactionColumns);

/// The composed dataset delegates its by-block parameters entirely to the
/// driving constituent, transactions, whose fetched block is rich enough to
/// populate the block table as well.
pub fn blocks_and_transactions_by_block_request(req: &RequestUnit) -> (r: FetchRequest)
    requires
        req is ByBlock,
    ensures
        r == FetchRequest::BlockWithTransactionsByNumber(req->ByBlock_0),
{
    transactions_by_block_request(req)
}

impl BlocksAndTransactionsColumns {
    /// The ordered tags of the constituent datasets.
    pub fn datatypes() -> (r: Vec<Datatype>)
        ensures
            r@ =~= seq![Datatype::Blocks, Datatype::Transactions],
    {
        let mut v: Vec<Datatype> = Vec::new();
        v.push(Datatype::Blocks);
        v.push(Datatype::Transactions);
        v
    }

    /// Materializes one table per constituent, keyed by its tag, in the
    /// declared constituent order. Succeeds exactly when both constituent
    /// accumulators satisfy their column-length invariants; each table is
    /// then precisely its own constituent's materialization, with the same
    /// chain identity. A length mismatch in either constituent is the only
    /// failure, and then no table is returned for either.
    pub fn create_dfs(self, schemas: &Schemas, chain_id: u64) -> (r: Result<
        Vec<(Datatype, DataTable)>,
        MaterializeError,
    >)
        requires
            self.0.wf(),
            schemas.blocks is Some,
            schemas.transactions is Some,
        ensures
            r is Ok <==> crate::blocks::block_columns_ok(self.0@, schemas.blocks->0)
                && crate::transactions::transaction_columns_ok(
                self.1@,
                schemas.transactions->0,
            ),
            r matches Err(e) ==> e == MaterializeError::LengthMismatch,
            r matches Ok(ts) ==> ts@.len() == 2 && ts@[0].0 == Datatype::Blocks && ts@[1].0
                == Datatype::Transactions && ts@[0].1.datatype == Datatype::Blocks
                && ts@[1].1.datatype == Datatype::Transactions && ts@[0].1.chain_id == chain_id
                && ts@[1].1.chain_id == chain_id && ts@[0].1.n_rows == self.0.n_rows
                && ts@[1].1.n_rows == self.1.n_rows && ts@[0].1.columns@
                == crate::table::block_table_columns(self.0, schemas.blocks->0)
                && ts@[1].1.columns@ == crate::table::transaction_table_columns(
                self.1,
                schemas.transactions->0,
            ) && ts@[0].1.wf() && ts@[1].1.wf(),
    {
        let BlocksAndTransactionsColumns(block_columns, transaction_columns) = self;
        let bs = match schemas.blocks {
            Some(s) => s,
            None => crate::schema::BlockSchema::full(Encoding::Binary),
        };
        let ts = match schemas.transactions {
            Some(s) => s,
            None => crate::schema::TransactionSchema::full(),
        };
        let block_table = match block_columns.create_df(&bs, chain_id) {
            Ok(t) => t,
            Err(e) => {
                return Err(e);
            },
        };
        let transaction_table = match transaction_columns.create_df(&ts, chain_id) {
            Ok(t) => t,
            Err(e) => {
                return Err(e);
            },
        };
        let mut out: Vec<(Datatype, DataTable)> = Vec::new();
        out.push((Datatype::Blocks, block_table));
        out.push((Datatype::Transactions, transaction_table));
        Ok(out)
    }
}

/// The composed transform: both constituent transforms are applied to the
/// same response, each routing rows into its own disjoint accumulator with
/// its own per-dataset rules; composition alters neither constituent's
/// per-row semantics. A block-transform failure leaves both accumulators
/// unchanged.
pub fn blocks_and_transactions_transform(
    response: &BlockData,
    columns: &mut BlocksAndTransactionsColumns,
    schemas: &Schemas,
) -> (r: Result<(), CollectError>)
    requires
        schemas.blocks is Some,
        schemas.transactions is Some,
        old(columns).0.wf(),
        old(columns).0.encodings_match(schemas.blocks->0),
        response.wf(),
        old(columns).0.n_rows < u64::MAX,
        old(columns).1.n_rows + response.transactions@.len() <= u64::MAX,
        response.transactions@.len() <= u64::MAX,
    ensures
        final(columns).0.wf(),
        final(columns).0.encodings_match(schemas.blocks->0),
        r is Ok <==> block_row_err(*response, schemas.blocks->0) is None,
        r matches Err(e) ==> Some(e) == block_row_err(*response, schemas.blocks->0)
            && final(columns).0@ == old(columns).0@ && final(columns).1@ == old(columns).1@,
        r is Ok ==> final(columns).0@ == block_step(
            old(columns).0@,
            *response,
            schemas.blocks->0,
        ) && final(columns).1@ == transactions_step(
            old(columns).1@,
            *response,
            schemas.transactions->0,
        ),
{
    let bs = match schemas.blocks {
        Some(s) => s,
        None => crate::schema::BlockSchema::full(Encoding::Binary),
    };
    let ts = match schemas.transactions {
        Some(s) => s,
        None => crate::schema::TransactionSchema::full(),
    };
    match process_block(response, &mut columns.0, &bs) {
        Ok(()) => {},
        Err(e) => {
            return Err(e);
        },
    }
    let tr = process_transactions(response, &mut columns.1, &ts);
    proof {
        assert(tr is Ok);
    }
    Ok(())
}

/// Composition preserves per-row semantics: after one composed transform,
/// each constituent accumulator's row count is exactly what its own
/// per-dataset transform rule dictates — one row for the block table, one
/// row per transaction for the transaction table.
pub proof fn lemma_composition_row_counts(
    bv: crate::blocks::BlockColumnsView,
    tv: crate::transactions::TransactionColumnsView,
    b: BlockData,
    bs: crate::schema::BlockSchema,
    ts: crate::schema::TransactionSchema,
)
    ensures
        block_step(bv, b, bs).n_rows == bv.n_rows + 1,
        transactions_step(tv, b, ts).n_rows == tv.n_rows + b.transactions@.len(),
{
}

} // verus!
