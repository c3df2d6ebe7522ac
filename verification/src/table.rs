//! Table materialization: converts a completed column accumulator plus its
//! schema descriptor into a validated, ordered tabular structure.

use crate::balance_diffs::balance_diff_columns_ok;
use crate::balance_diffs::BalanceDiffColumns;
use crate::blocks::block_columns_ok;
use crate::blocks::BlockColumns;
use crate::columns::EncodedColumn;
use crate::columns::OptEncodedColumn;
use crate::schema::BalanceDiffSchema;
use crate::schema::BlockSchema;
use crate::schema::TransactionSchema;
use crate::transactions::transaction_columns_ok;
use crate::transactions::TransactionColumns;
use crate::types::Datatype;
use crate::types::MaterializeError;
use vstd::prelude::*;

verus! {

/// The name of one output column.
#[derive(Clone, Copy, Debug, PartialEq, Eq, Structural)]
pub enum ColumnId {
    Hash,
    ParentHash,
    Author,
    StateRoot,
    TransactionsRoot,
    ReceiptsRoot,
    BlockNumber,
    GasUsed,
    ExtraData,
    LogsBloom,
    Timestamp,
    TotalDifficulty,
    Size,
    BaseFeePerGas,
    TransactionIndex,
    TransactionHash,
    Address,
    FromValue,
    ToValue,
}

/// The data of one output column.
pub enum ColumnValues {
    U32s(Vec<u32>),
    OptU32s(Vec<Option<u32>>),
    U64s(Vec<u64>),
    OptU64s(Vec<Option<u64>>),
    Bytes(Vec<Vec<u8>>),
    OptBytes(Vec<Option<Vec<u8>>>),
    Wide(EncodedColumn),
    OptWide(OptEncodedColumn),
}

/// The number of rows a column holds.
pub open spec fn col_len(v: ColumnValues) -> nat {
    match v {
        ColumnValues::U32s(c) => c@.len(),
        ColumnValues::OptU32s(c) => c@.len(),
        ColumnValues::U64s(c) => c@.len(),
        ColumnValues::OptU64s(c) => c@.len(),
        ColumnValues::Bytes(c) => c@.len(),
        ColumnValues::OptBytes(c) => c@.len(),
        ColumnValues::Wide(c) => c.len(),
        ColumnValues::OptWide(c) => c.len(),
    }
}

/// One named output column.
pub struct Column {
    pub id: ColumnId,
    pub values: ColumnValues,
}

/// A validated, ordered table: the enabled columns in declared order, each
/// exactly `n_rows` long, labelled with the dataset tag and chain identity.
pub struct DataTable {
    pub datatype: Datatype,
    pub chain_id: u64,
    pub n_rows: u64,
    pub columns: Vec<Column>,
}

impl DataTable {
    /// Every column holds exactly one entry per row.
    pub open spec fn wf(&self) -> bool {
        forall|k: int|
            0 <= k < self.columns@.len() ==> col_len((#[trigger] self.columns@[k]).values)
                == self.n_rows
    }
}

/// Appends one column whose length matches the table's row count, keeping
/// every earlier column at that length.
fn push_col(out: &mut Vec<Column>, c: Column, Ghost(n): Ghost<u64>)
    requires
        col_len(c.values) == n,
        forall|k: int|
            0 <= k < old(out)@.len() ==> col_len((#[trigger] old(out)@[k]).values) == n,
    ensures
        final(out)@ == old(out)@.push(c),
        forall|k: int| 0 <= k < final(out)@.len() ==> col_len((#[trigger] final(out)@[k]).values)
            == n,
{
    out.push(c);
    proof {
        assert forall|k: int| 0 <= k < out@.len() implies col_len((#[trigger] out@[k]).values)
            == n by {
            if k < out@.len() - 1 {
                assert(out@[k] == old(out)@[k]);
            } else {
                assert(out@[k] == c);
            }
        }
    }
}

/// The columns of the materialized blocks table: exactly the enabled ones,
/// in declared order, carrying the accumulator's own vectors.
pub open spec fn block_table_columns(c: BlockColumns, s: BlockSchema) -> Seq<Column> {
    let t0 = Seq::<Column>::empty();
    let t1 = if s.hash {
        t0.push(Column { id: ColumnId::Hash, values: ColumnValues::Bytes(c.hash) })
    } else {
        t0
    };
    let t2 = if s.parent_hash {
        t1.push(Column { id: ColumnId::ParentHash, values: ColumnValues::Bytes(c.parent_hash) })
    } else {
        t1
    };
    let t3 = if s.author {
        t2.push(Column { id: ColumnId::Author, values: ColumnValues::Bytes(c.author) })
    } else {
        t2
    };
    let t4 = if s.state_root {
        t3.push(Column { id: ColumnId::StateRoot, values: ColumnValues::Bytes(c.state_root) })
    } else {
        t3
    };
    let t5 = if s.transactions_root {
        t4.push(
            Column {
                id: ColumnId::TransactionsRoot,
                values: ColumnValues::Bytes(c.transactions_root),
            },
        )
    } else {
        t4
    };
    let t6 = if s.receipts_root {
        t5.push(
            Column { id: ColumnId::ReceiptsRoot, values: ColumnValues::Bytes(c.receipts_root) },
        )
    } else {
        t5
    };
    let t7 = if s.block_number {
        t6.push(
            Column { id: ColumnId::BlockNumber, values: ColumnValues::OptU32s(c.block_number) },
        )
    } else {
        t6
    };
    let t8 = if s.gas_used {
        t7.push(Column { id: ColumnId::GasUsed, values: ColumnValues::U32s(c.gas_used) })
    } else {
        t7
    };
    let t9 = if s.extra_data {
        t8.push(Column { id: ColumnId::ExtraData, values: ColumnValues::Bytes(c.extra_data) })
    } else {
        t8
    };
    let t10 = if s.logs_bloom {
        t9.push(Column { id: ColumnId::LogsBloom, values: ColumnValues::OptBytes(c.logs_bloom) })
    } else {
        t9
    };
    let t11 = if s.timestamp {
        t10.push(Column { id: ColumnId::Timestamp, values: ColumnValues::U32s(c.timestamp) })
    } else {
        t10
    };
    let t12 = if s.total_difficulty is Some {
        t11.push(
            Column {
                id: ColumnId::TotalDifficulty,
                values: ColumnValues::OptWide(c.total_difficulty),
            },
        )
    } else {
        t11
    };
    let t13 = if s.size {
        t12.push(Column { id: ColumnId::Size, values: ColumnValues::OptU32s(c.size) })
    } else {
        t12
    };
    if s.base_fee_per_gas {
        t13.push(
            Column {
                id: ColumnId::BaseFeePerGas,
                values: ColumnValues::OptU64s(c.base_fee_per_gas),
            },
        )
    } else {
        t13
    }
}

/// The columns of the materialized transactions table, in declared order.
pub open spec fn transaction_table_columns(c: TransactionColumns, s: TransactionSchema) -> Seq<
    Column,
> {
    let t0 = Seq::<Column>::empty();
    let t1 = if s.block_number {
        t0.push(
            Column { id: ColumnId::BlockNumber, values: ColumnValues::OptU32s(c.block_number) },
        )
    } else {
        t0
    };
    let t2 = if s.transaction_index {
        t1.push(
            Column {
                id: ColumnId::TransactionIndex,
                values: ColumnValues::U64s(c.transaction_index),
            },
        )
    } else {
        t1
    };
    if s.transaction_hash {
        t2.push(
            Column {
                id: ColumnId::TransactionHash,
                values: ColumnValues::Bytes(c.transaction_hash),
            },
        )
    } else {
        t2
    }
}

/// The columns of the materialized balance-diffs table, in declared order.
pub open spec fn balance_diff_table_columns(c: BalanceDiffColumns, s: BalanceDiffSchema) -> Seq<
    Column,
> {
    let t0 = Seq::<Column>::empty();
    let t1 = if s.block_number {
        t0.push(
            Column { id: ColumnId::BlockNumber, values: ColumnValues::OptU32s(c.block_number) },
        )
    } else {
        t0
    };
    let t2 = if s.transaction_index {
        t1.push(
            Column {
                id: ColumnId::TransactionIndex,
                values: ColumnValues::OptU64s(c.transaction_index),
            },
        )
    } else {
        t1
    };
    let t3 = if s.transaction_hash {
        t2.push(
            Column {
                id: ColumnId::TransactionHash,
                values: ColumnValues::OptBytes(c.transaction_hash),
            },
        )
    } else {
        t2
    };
    let t4 = if s.address {
        t3.push(Column { id: ColumnId::Address, values: ColumnValues::Bytes(c.address) })
    } else {
        t3
    };
    let t5 = if s.from_value is Some {
        t4.push(Column { id: ColumnId::FromValue, values: ColumnValues::Wide(c.from_value) })
    } else {
        t4
    };
    if s.to_value is Some {
        t5.push(Column { id: ColumnId::ToValue, values: ColumnValues::Wide(c.to_value) })
    } else {
        t5
    }
}

/// Assembles the blocks table's column list from an accumulator that
/// satisfies the column-length invariant.
#[verifier::rlimit(100)]
fn build_block_table(c: BlockColumns, schema: &BlockSchema) -> (r: Vec<Column>)
    requires
        c.wf(),
        block_columns_ok(c@, *schema),
    ensures
        r@ == block_table_columns(c, *schema),
        forall|k: int| 0 <= k < r@.len() ==> col_len((#[trigger] r@[k]).values) == c@.n_rows,
{
    let ghost n: u64 = c.n_rows;
    let mut columns: Vec<Column> = Vec::new();
    let BlockColumns {
        n_rows: _,
        hash,
        parent_hash,
        author,
        state_root,
        transactions_root,
        receipts_root,
        block_number,
        gas_used,
        extra_data,
        logs_bloom,
        timestamp,
        total_difficulty,
        size,
        base_fee_per_gas,
    } = c;
    if schema.hash {
        push_col(
            &mut columns,
            Column { id: ColumnId::Hash, values: ColumnValues::Bytes(hash) },
            Ghost(n),
        );
    }
    if schema.parent_hash {
        push_col(
            &mut columns,
            Column { id: ColumnId::ParentHash, values: ColumnValues::Bytes(parent_hash) },
            Ghost(n),
        );
    }
    if schema.author {
        push_col(
            &mut columns,
            Column { id: ColumnId::Author, values: ColumnValues::Bytes(author) },
            Ghost(n),
        );
    }
    if schema.state_root {
        push_col(
            &mut columns,
            Column { id: ColumnId::StateRoot, values: ColumnValues::Bytes(state_root) },
            Ghost(n),
        );
    }
    if schema.transactions_root {
        push_col(
            &mut columns,
            Column {
                id: ColumnId::TransactionsRoot,
                values: ColumnValues::Bytes(transactions_root),
            },
            Ghost(n),
        );
    }
    if schema.receipts_root {
        push_col(
            &mut columns,
            Column { id: ColumnId::ReceiptsRoot, values: ColumnValues::Bytes(receipts_root) },
            Ghost(n),
        );
    }
    if schema.block_number {
        push_col(
            &mut columns,
            Column { id: ColumnId::BlockNumber, values: ColumnValues::OptU32s(block_number) },
            Ghost(n),
        );
    }
    if schema.gas_used {
        push_col(
            &mut columns,
            Column { id: ColumnId::GasUsed, values: ColumnValues::U32s(gas_used) },
            Ghost(n),
        );
    }
    if schema.extra_data {
        push_col(
            &mut columns,
            Column { id: ColumnId::ExtraData, values: ColumnValues::Bytes(extra_data) },
            Ghost(n),
        );
    }
    if schema.logs_bloom {
        push_col(
            &mut columns,
            Column { id: ColumnId::LogsBloom, values: ColumnValues::OptBytes(logs_bloom) },
            Ghost(n),
        );
    }
    if schema.timestamp {
        push_col(
            &mut columns,
            Column { id: ColumnId::Timestamp, values: ColumnValues::U32s(timestamp) },
            Ghost(n),
        );
    }
    if matches!(schema.total_difficulty, Some(_)) {
        push_col(
            &mut columns,
            Column {
                id: ColumnId::TotalDifficulty,
                values: ColumnValues::OptWide(total_difficulty),
            },
            Ghost(n),
        );
    }
    if schema.size {
        push_col(
            &mut columns,
            Column { id: ColumnId::Size, values: ColumnValues::OptU32s(size) },
            Ghost(n),
        );
    }
    if schema.base_fee_per_gas {
        push_col(
            &mut columns,
            Column { id: ColumnId::BaseFeePerGas, values: ColumnValues::OptU64s(base_fee_per_gas) },
            Ghost(n),
        );
    }
    proof {
        assert(columns@ == block_table_columns(c, *schema));
    }
    columns
}

impl BlockColumns {
    /// Materializes the accumulator, consuming it. Succeeds exactly when the
    /// accumulator satisfies the column-length invariant; the table then
    /// carries exactly the enabled columns, in declared order, with the
    /// accumulator's own data. A length mismatch is the only failure.
    #[verifier::rlimit(100)]
    pub fn create_df(self, schema: &BlockSchema, chain_id: u64) -> (r: Result<
        DataTable,
        MaterializeError,
    >)
        requires
            self.wf(),
        ensures
            r is Ok <==> block_columns_ok(self@, *schema),
            r matches Err(e) ==> e == MaterializeError::LengthMismatch,
            r matches Ok(t) ==> t.datatype == Datatype::Blocks && t.chain_id == chain_id
                && t.n_rows == self.n_rows && t.columns@ == block_table_columns(self, *schema)
                && t.wf(),
    {
        let n = self.n_rows;
        let ok = (if schema.hash {
            self.hash.len() as u64 == n
        } else {
            self.hash.len() == 0
        }) && (if schema.parent_hash {
            self.parent_hash.len() as u64 == n
        } else {
            self.parent_hash.len() == 0
        }) && (if schema.author {
            self.author.len() as u64 == n
        } else {
            self.author.len() == 0
        }) && (if schema.state_root {
            self.state_root.len() as u64 == n
        } else {
            self.state_root.len() == 0
        }) && (if schema.transactions_root {
            self.transactions_root.len() as u64 == n
        } else {
            self.transactions_root.len() == 0
        }) && (if schema.receipts_root {
            self.receipts_root.len() as u64 == n
        } else {
            self.receipts_root.len() == 0
        }) && (if schema.block_number {
            self.block_number.len() as u64 == n
        } else {
            self.block_number.len() == 0
        }) && (if schema.gas_used {
            self.gas_used.len() as u64 == n
        } else {
            self.gas_used.len() == 0
        }) && (if schema.extra_data {
            self.extra_data.len() as u64 == n
        } else {
            self.extra_data.len() == 0
        }) && (if schema.logs_bloom {
            self.logs_bloom.len() as u64 == n
        } else {
            self.logs_bloom.len() == 0
        }) && (if schema.timestamp {
            self.timestamp.len() as u64 == n
        } else {
            self.timestamp.len() == 0
        }) && (if matches!(schema.total_difficulty, Some(_)) {
            self.total_difficulty.hi.len() as u64 == n && self.total_difficulty.bin.len() == 0
                || self.total_difficulty.bin.len() as u64 == n && self.total_difficulty.hi.len()
                == 0
        } else {
            self.total_difficulty.hi.len() == 0 && self.total_difficulty.bin.len() == 0
        }) && (if schema.size {
            self.size.len() as u64 == n
        } else {
            self.size.len() == 0
        }) && (if schema.base_fee_per_gas {
            self.base_fee_per_gas.len() as u64 == n
        } else {
            self.base_fee_per_gas.len() == 0
        });
        if !ok {
            return Err(MaterializeError::LengthMismatch);
        }
        let columns = build_block_table(self, schema);
        Ok(DataTable { datatype: Datatype::Blocks, chain_id, n_rows: n, columns })
    }
}

impl TransactionColumns {
    /// Materializes the accumulator, consuming it. Succeeds exactly when the
    /// accumulator satisfies the column-length invariant; the table then
    /// carries exactly the enabled columns, in declared order, with the
    /// accumulator's own data. A length mismatch is the only failure.
    pub fn create_df(self, schema: &TransactionSchema, chain_id: u64) -> (r: Result<
        DataTable,
        MaterializeError,
    >)
        ensures
            r is Ok <==> transaction_columns_ok(self@, *schema),
            r matches Err(e) ==> e == MaterializeError::LengthMismatch,
            r matches Ok(t) ==> t.datatype == Datatype::Transactions && t.chain_id == chain_id
                && t.n_rows == self.n_rows && t.columns@ == transaction_table_columns(
                self,
                *schema,
            ) && t.wf(),
    {
        let n = self.n_rows;
        let ok = (if schema.block_number {
            self.block_number.len() as u64 == n
        } else {
            self.block_number.len() == 0
        }) && (if schema.transaction_index {
            self.transaction_index.len() as u64 == n
        } else {
            self.transaction_index.len() == 0
        }) && (if schema.transaction_hash {
            self.transaction_hash.len() as u64 == n
        } else {
            self.transaction_hash.len() == 0
        });
        if !ok {
            return Err(MaterializeError::LengthMismatch);
        }
        let mut columns: Vec<Column> = Vec::new();
        if schema.block_number {
            push_col(
                &mut columns,
                Column {
                    id: ColumnId::BlockNumber,
                    values: ColumnValues::OptU32s(self.block_number),
                },
                Ghost(n),
            );
        }
        if schema.transaction_index {
            push_col(
                &mut columns,
                Column {
                    id: ColumnId::TransactionIndex,
                    values: ColumnValues::U64s(self.transaction_index),
                },
                Ghost(n),
            );
        }
        if schema.transaction_hash {
            push_col(
                &mut columns,
                Column {
                    id: ColumnId::TransactionHash,
                    values: ColumnValues::Bytes(self.transaction_hash),
                },
                Ghost(n),
            );
        }
        proof {
            assert(columns@ == transaction_table_columns(self, *schema));
        }
        Ok(DataTable { datatype: Datatype::Transactions, chain_id, n_rows: n, columns })
    }
}

impl BalanceDiffColumns {
    /// Materializes the accumulator, consuming it. Succeeds exactly when the
    /// accumulator satisfies the column-length invariant; the table then
    /// carries exactly the enabled columns, in declared order, with the
    /// accumulator's own data. A length mismatch is the only failure.
    #[verifier::rlimit(100)]
    pub fn create_df(self, schema: &BalanceDiffSchema, chain_id: u64) -> (r: Result<
        DataTable,
        MaterializeError,
    >)
        requires
            self.wf(),
        ensures
            r is Ok <==> balance_diff_columns_ok(self@, *schema),
            r matches Err(e) ==> e == MaterializeError::LengthMismatch,
            r matches Ok(t) ==> t.datatype == Datatype::BalanceDiffs && t.chain_id == chain_id
                && t.n_rows == self.n_rows && t.columns@ == balance_diff_table_columns(
                self,
                *schema,
            ) && t.wf(),
    {
        let n = self.n_rows;
        let ok = (if schema.block_number {
            self.block_number.len() as u64 == n
        } else {
            self.block_number.len() == 0
        }) && (if schema.transaction_index {
            self.transaction_index.len() as u64 == n
        } else {
            self.transaction_index.len() == 0
        }) && (if schema.transaction_hash {
            self.transaction_hash.len() as u64 == n
        } else {
            self.transaction_hash.len() == 0
        }) && (if schema.address {
            self.address.len() as u64 == n
        } else {
            self.address.len() == 0
        }) && (if matches!(schema.from_value, Some(_)) {
            self.from_value.hi.len() as u64 == n && self.from_value.bin.len() == 0
                || self.from_value.bin.len() as u64 == n && self.from_value.hi.len() == 0
        } else {
            self.from_value.hi.len() == 0 && self.from_value.bin.len() == 0
        }) && (if matches!(schema.to_value, Some(_)) {
            self.to_value.hi.len() as u64 == n && self.to_value.bin.len() == 0
                || self.to_value.bin.len() as u64 == n && self.to_value.hi.len() == 0
        } else {
            self.to_value.hi.len() == 0 && self.to_value.bin.len() == 0
        });
        if !ok {
            return Err(MaterializeError::LengthMismatch);
        }
        let mut columns: Vec<Column> = Vec::new();
        if schema.block_number {
            push_col(
                &mut columns,
                Column {
                    id: ColumnId::BlockNumber,
                    values: ColumnValues::OptU32s(self.block_number),
                },
                Ghost(n),
            );
        }
        if schema.transaction_index {
            push_col(
                &mut columns,
                Column {
                    id: ColumnId::TransactionIndex,
                    values: ColumnValues::OptU64s(self.transaction_index),
                },
                Ghost(n),
            );
        }
        if schema.transaction_hash {
            push_col(
                &mut columns,
                Column {
                    id: ColumnId::TransactionHash,
                    values: ColumnValues::OptBytes(self.transaction_hash),
                },
                Ghost(n),
            );
        }
        if schema.address {
            push_col(
                &mut columns,
                Column { id: ColumnId::Address, values: ColumnValues::Bytes(self.address) },
                Ghost(n),
            );
        }
        if matches!(schema.from_value, Some(_)) {
            push_col(
                &mut columns,
                Column { id: ColumnId::FromValue, values: ColumnValues::Wide(self.from_value) },
                Ghost(n),
            );
        }
        if matches!(schema.to_value, Some(_)) {
            push_col(
                &mut columns,
                Column { id: ColumnId::ToValue, values: ColumnValues::Wide(self.to_value) },
                Ghost(n),
            );
        }
        proof {
            assert(columns@ == balance_diff_table_columns(self, *schema));
        }
        Ok(DataTable { datatype: Datatype::BalanceDiffs, chain_id, n_rows: n, columns })
    }
}

} // verus!
