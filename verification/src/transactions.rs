//! The transactions dataset: per-transaction rows derived from a block
//! fetched with its full transaction list.

use crate::blocks::BlockData;
use crate::columns::bytes_col_view;
use crate::columns::copy_bytes;
use crate::columns::store;
use crate::schema::TransactionSchema;
use crate::types::CollectError;
use crate::types::FetchRequest;
use crate::types::RequestUnit;
use vstd::prelude::*;

verus! {

/// One transaction as fetched inside a block: its hash and, when the node
/// reports it, the hash of its containing block.
pub struct TransactionData {
    pub hash: Vec<u8>,
    pub block_hash: Option<Vec<u8>>,
}

/// The abstract state of a transaction column accumulator.
pub struct TransactionColumnsView {
    pub n_rows: nat,
    pub block_number: Seq<Option<u32>>,
    pub transaction_index: Seq<u64>,
    pub transaction_hash: Seq<Seq<u8>>,
}

/// Column accumulator for the transactions dataset.
pub struct TransactionColumns {
    pub n_rows: u64,
    pub block_number: Vec<Option<u32>>,
    pub transaction_index: Vec<u64>,
    pub transaction_hash: Vec<Vec<u8>>,
}

impl View for TransactionColumns {
    type V = TransactionColumnsView;

    open spec fn view(&self) -> TransactionColumnsView {
        TransactionColumnsView {
            n_rows: self.n_rows as nat,
            block_number: self.block_number@,
            transaction_index: self.transaction_index@,
            transaction_hash: bytes_col_view(self.transaction_hash@),
        }
    }
}

/// The accumulator invariant: enabled columns as long as the row counter,
/// disabled columns empty.
pub open spec fn transaction_columns_ok(v: TransactionColumnsView, s: TransactionSchema) -> bool {
    &&& v.block_number.len() == (if s.block_number {
        v.n_rows
    } else {
        0
    })
    &&& v.transaction_index.len() == (if s.transaction_index {
        v.n_rows
    } else {
        0
    })
    &&& v.transaction_hash.len() == (if s.transaction_hash {
        v.n_rows
    } else {
        0
    })
}

/// The view of a freshly created transaction accumulator.
pub open spec fn empty_transaction_view() -> TransactionColumnsView {
    TransactionColumnsView {
        n_rows: 0,
        block_number: Seq::empty(),
        transaction_index: Seq::empty(),
        transaction_hash: Seq::empty(),
    }
}

impl TransactionColumns {
    pub fn new() -> (r: TransactionColumns)
        ensures
            r@ == empty_transaction_view(),
    {
        let r = TransactionColumns {
            n_rows: 0,
            block_number: Vec::new(),
            transaction_index: Vec::new(),
            transaction_hash: Vec::new(),
        };
        proof {
            assert(bytes_col_view(r.transaction_hash@) =~= Seq::<Seq<u8>>::empty());
        }
        r
    }
}

/// The accumulator state after transforming a block's transaction list: one
/// row per transaction, in list order.
pub open spec fn transactions_step(
    v: TransactionColumnsView,
    b: BlockData,
    s: TransactionSchema,
) -> TransactionColumnsView {
    let txs = b.transactions@;
    TransactionColumnsView {
        n_rows: v.n_rows + txs.len(),
        block_number: if s.block_number {
            v.block_number + Seq::new(txs.len(), |i: int| b.number)
        } else {
            v.block_number
        },
        transaction_index: if s.transaction_index {
            v.transaction_index + Seq::new(txs.len(), |i: int| i as u64)
        } else {
            v.transaction_index
        },
        transaction_hash: if s.transaction_hash {
            v.transaction_hash + txs.map(|i: int, t: TransactionData| t.hash@)
        } else {
            v.transaction_hash
        },
    }
}

/// Maps a fetched block's transaction list into rows, one per transaction,
/// in list order.
pub fn process_transactions(
    block: &BlockData,
    columns: &mut TransactionColumns,
    schema: &TransactionSchema,
) -> (r: Result<(), CollectError>)
    requires
        old(columns).n_rows + block.transactions@.len() <= u64::MAX,
        block.transactions@.len() <= u64::MAX,
    ensures
        r is Ok,
        final(columns)@ == transactions_step(old(columns)@, *block, *schema),
        transaction_columns_ok(old(columns)@, *schema) ==> transaction_columns_ok(
            final(columns)@,
            *schema,
        ),
{
    let ghost v0 = columns@;
    let ghost txs = block.transactions@;
    let mut i: usize = 0;
    proof {
        assert(columns@.block_number =~= v0.block_number + Seq::new(0, |k: int| block.number));
        assert(columns@.transaction_index =~= v0.transaction_index + Seq::new(
            0,
            |k: int| k as u64,
        ));
        assert(columns@.transaction_hash =~= v0.transaction_hash + txs.map(
            |k: int, t: TransactionData| t.hash@,
        ).take(0));
    }
    while i < block.transactions.len()
        invariant
            i <= txs.len(),
            txs == block.transactions@,
            txs.len() <= u64::MAX,
            v0.n_rows + txs.len() <= u64::MAX,
            columns.n_rows as nat == v0.n_rows + i,
            columns@.block_number == v0.block_number + (if schema.block_number {
                Seq::new(i as nat, |k: int| block.number)
            } else {
                Seq::<Option<u32>>::empty()
            }),
            columns@.transaction_index == v0.transaction_index + (if schema.transaction_index {
                Seq::new(i as nat, |k: int| k as u64)
            } else {
                Seq::<u64>::empty()
            }),
            columns@.transaction_hash == v0.transaction_hash + (if schema.transaction_hash {
                txs.map(|k: int, t: TransactionData| t.hash@).take(i as int)
            } else {
                Seq::<Seq<u8>>::empty()
            }),
        decreases txs.len() - i,
    {
        columns.n_rows = columns.n_rows + 1;
        store(schema.block_number, &mut columns.block_number, block.number);
        store(schema.transaction_index, &mut columns.transaction_index, i as u64);
        let ghost pre = columns.transaction_hash@;
        let hash_copy = copy_bytes(&block.transactions[i].hash);
        let ghost hv = hash_copy@;
        store(schema.transaction_hash, &mut columns.transaction_hash, hash_copy);
        proof {
            if schema.block_number {
                assert(columns@.block_number =~= v0.block_number + Seq::new(
                    (i + 1) as nat,
                    |k: int| block.number,
                ));
            } else {
                assert(columns@.block_number =~= v0.block_number);
            }
            if schema.transaction_index {
                assert(columns@.transaction_index =~= v0.transaction_index + Seq::new(
                    (i + 1) as nat,
                    |k: int| k as u64,
                ));
            } else {
                assert(columns@.transaction_index =~= v0.transaction_index);
            }
            if schema.transaction_hash {
                let m = txs.map(|k: int, t: TransactionData| t.hash@);
                assert(m[i as int] == txs[i as int].hash@);
                assert(hv == m[i as int]);
                assert(bytes_col_view(columns.transaction_hash@) =~= bytes_col_view(pre).push(hv));
                assert(bytes_col_view(pre) == v0.transaction_hash + m.take(i as int));
                assert((v0.transaction_hash + m.take(i as int)).push(m[i as int])
                    =~= v0.transaction_hash + m.take(i + 1));
            } else {
                assert(columns@.transaction_hash =~= v0.transaction_hash);
            }
        }
        i = i + 1;
    }
    proof {
        if schema.block_number {
        } else {
            assert(columns@.block_number =~= v0.block_number);
        }
        if schema.transaction_hash {
            assert(txs.map(|k: int, t: TransactionData| t.hash@).take(txs.len() as int) =~= txs.map(
                |k: int, t: TransactionData| t.hash@,
            ));
        } else {
            assert(columns@.transaction_hash =~= v0.transaction_hash);
        }
        if !schema.transaction_index {
            assert(columns@.transaction_index =~= v0.transaction_index);
        }
        assert(columns@ == transactions_step(v0, *block, *schema));
    }
    Ok(())
}

/// By-block extraction for transactions: one fetch of the block with its
/// full transaction list.
pub fn transactions_by_block_request(req: &RequestUnit) -> (r: FetchRequest)
    requires
        req is ByBlock,
    ensures
        r == FetchRequest::BlockWithTransactionsByNumber(req->ByBlock_0),
{
    match req {
        RequestUnit::ByBlock(n) => FetchRequest::BlockWithTransactionsByNumber(*n),
        RequestUnit::ByTransaction(_) => FetchRequest::BlockWithTransactionsByNumber(0),
    }
}

} // verus!
