//! The blocks dataset: fetched block data, its column accumulator, and the
//! transform that maps one block into one row.

use crate::columns::bytes_col_view;
use crate::columns::copy_bytes;
use crate::columns::copy_opt_bytes;
use crate::columns::opt_bytes_col_view;
use crate::columns::enc_ok_opt;
use crate::columns::encoded_cell_opt;
use crate::columns::opt_bytes_view;
use crate::columns::store;
use crate::columns::store_wide_opt;
use crate::columns::OptEncodedColumn;
use crate::columns::WideCell;
use crate::schema::BlockSchema;
use crate::schema::Encoding;
use crate::transactions::TransactionData;
use crate::types::CollectError;
use crate::types::FetchRequest;
use crate::types::RequestUnit;
use crate::wide::U256;
use vstd::prelude::*;

verus! {

/// One fetched block, holding as plain values exactly what the transform
/// reads. Fields the chain guarantees are plain; fields a node may omit are
/// optional.
pub struct BlockData {
    pub hash: Option<Vec<u8>>,
    pub parent_hash: Vec<u8>,
    pub author: Option<Vec<u8>>,
    pub state_root: Vec<u8>,
    pub transactions_root: Vec<u8>,
    pub receipts_root: Vec<u8>,
    pub number: Option<u32>,
    pub gas_used: u32,
    pub extra_data: Vec<u8>,
    pub logs_bloom: Option<Vec<u8>>,
    pub timestamp: u32,
    pub total_difficulty: Option<U256>,
    pub size: Option<u32>,
    pub base_fee_per_gas: Option<u64>,
    pub transactions: Vec<TransactionData>,
}

impl BlockData {
    pub open spec fn wf(&self) -> bool {
        self.total_difficulty matches Some(u) ==> u.wf()
    }
}

/// The abstract state of a block column accumulator.
pub struct BlockColumnsView {
    pub n_rows: nat,
    pub hash: Seq<Seq<u8>>,
    pub parent_hash: Seq<Seq<u8>>,
    pub author: Seq<Seq<u8>>,
    pub state_root: Seq<Seq<u8>>,
    pub transactions_root: Seq<Seq<u8>>,
    pub receipts_root: Seq<Seq<u8>>,
    pub block_number: Seq<Option<u32>>,
    pub gas_used: Seq<u32>,
    pub extra_data: Seq<Seq<u8>>,
    pub logs_bloom: Seq<Option<Seq<u8>>>,
    pub timestamp: Seq<u32>,
    pub total_difficulty: Seq<Option<WideCell>>,
    pub size: Seq<Option<u32>>,
    pub base_fee_per_gas: Seq<Option<u64>>,
}

/// Column accumulator for the blocks dataset: one growable sequence per
/// declared output column, plus a row counter.
pub struct BlockColumns {
    pub n_rows: u64,
    pub hash: Vec<Vec<u8>>,
    pub parent_hash: Vec<Vec<u8>>,
    pub author: Vec<Vec<u8>>,
    pub state_root: Vec<Vec<u8>>,
    pub transactions_root: Vec<Vec<u8>>,
    pub receipts_root: Vec<Vec<u8>>,
    pub block_number: Vec<Option<u32>>,
    pub gas_used: Vec<u32>,
    pub extra_data: Vec<Vec<u8>>,
    pub logs_bloom: Vec<Option<Vec<u8>>>,
    pub timestamp: Vec<u32>,
    pub total_difficulty: OptEncodedColumn,
    pub size: Vec<Option<u32>>,
    pub base_fee_per_gas: Vec<Option<u64>>,
}

impl View for BlockColumns {
    type V = BlockColumnsView;

    open spec fn view(&self) -> BlockColumnsView {
        BlockColumnsView {
            n_rows: self.n_rows as nat,
            hash: bytes_col_view(self.hash@),
            parent_hash: bytes_col_view(self.parent_hash@),
            author: bytes_col_view(self.author@),
            state_root: bytes_col_view(self.state_root@),
            transactions_root: bytes_col_view(self.transactions_root@),
            receipts_root: bytes_col_view(self.receipts_root@),
            block_number: self.block_number@,
            gas_used: self.gas_used@,
            extra_data: bytes_col_view(self.extra_data@),
            logs_bloom: opt_bytes_col_view(self.logs_bloom@),
            timestamp: self.timestamp@,
            total_difficulty: self.total_difficulty.cells(),
            size: self.size@,
            base_fee_per_gas: self.base_fee_per_gas@,
        }
    }
}

/// The accumulator invariant: every enabled column's length equals the row
/// counter, every disabled column is empty, and the wide column carries the
/// schema's encoding.
pub open spec fn block_columns_ok(v: BlockColumnsView, s: BlockSchema) -> bool {
    &&& v.hash.len() == (if s.hash {
        v.n_rows
    } else {
        0
    })
    &&& v.parent_hash.len() == (if s.parent_hash {
        v.n_rows
    } else {
        0
    })
    &&& v.author.len() == (if s.author {
        v.n_rows
    } else {
        0
    })
    &&& v.state_root.len() == (if s.state_root {
        v.n_rows
    } else {
        0
    })
    &&& v.transactions_root.len() == (if s.transactions_root {
        v.n_rows
    } else {
        0
    })
    &&& v.receipts_root.len() == (if s.receipts_root {
        v.n_rows
    } else {
        0
    })
    &&& v.block_number.len() == (if s.block_number {
        v.n_rows
    } else {
        0
    })
    &&& v.gas_used.len() == (if s.gas_used {
        v.n_rows
    } else {
        0
    })
    &&& v.extra_data.len() == (if s.extra_data {
        v.n_rows
    } else {
        0
    })
    &&& v.logs_bloom.len() == (if s.logs_bloom {
        v.n_rows
    } else {
        0
    })
    &&& v.timestamp.len() == (if s.timestamp {
        v.n_rows
    } else {
        0
    })
    &&& v.total_difficulty.len() == (if s.total_difficulty is Some {
        v.n_rows
    } else {
        0
    })
    &&& v.size.len() == (if s.size {
        v.n_rows
    } else {
        0
    })
    &&& v.base_fee_per_gas.len() == (if s.base_fee_per_gas {
        v.n_rows
    } else {
        0
    })
}

impl BlockColumns {
    /// The wide column's encoding matches the schema's declaration.
    pub open spec fn encodings_match(&self, s: BlockSchema) -> bool {
        s.total_difficulty matches Some(e) ==> self.total_difficulty.enc == e
    }

    pub open spec fn wf(&self) -> bool {
        self.total_difficulty.wf()
    }

    /// An empty accumulator for the given schema.
    pub fn new(s: &BlockSchema) -> (r: BlockColumns)
        ensures
            r.wf(),
            r.encodings_match(*s),
            r@.n_rows == 0,
            block_columns_ok(r@, *s),
            r@ == empty_block_view(*s),
    {
        let enc = match s.total_difficulty {
            Some(e) => e,
            None => Encoding::Binary,
        };
        let r = BlockColumns {
            n_rows: 0,
            hash: Vec::new(),
            parent_hash: Vec::new(),
            author: Vec::new(),
            state_root: Vec::new(),
            transactions_root: Vec::new(),
            receipts_root: Vec::new(),
            block_number: Vec::new(),
            gas_used: Vec::new(),
            extra_data: Vec::new(),
            logs_bloom: Vec::new(),
            timestamp: Vec::new(),
            total_difficulty: OptEncodedColumn::new(enc),
            size: Vec::new(),
            base_fee_per_gas: Vec::new(),
        };
        proof {
            assert(r@.total_difficulty =~= Seq::<Option<WideCell>>::empty());
            assert(bytes_col_view(Seq::<Vec<u8>>::empty()) =~= Seq::<Seq<u8>>::empty());
            assert(opt_bytes_col_view(Seq::<Option<Vec<u8>>>::empty()) =~= Seq::<
                Option<Seq<u8>>,
            >::empty());
            assert(r@ == empty_block_view(*s));
        }
        r
    }
}

/// The view of a freshly created block accumulator.
pub open spec fn empty_block_view(s: BlockSchema) -> BlockColumnsView {
    BlockColumnsView {
        n_rows: 0,
        hash: Seq::empty(),
        parent_hash: Seq::empty(),
        author: Seq::empty(),
        state_root: Seq::empty(),
        transactions_root: Seq::empty(),
        receipts_root: Seq::empty(),
        block_number: Seq::empty(),
        gas_used: Seq::empty(),
        extra_data: Seq::empty(),
        logs_bloom: Seq::empty(),
        timestamp: Seq::empty(),
        total_difficulty: Seq::empty(),
        size: Seq::empty(),
        base_fee_per_gas: Seq::empty(),
    }
}

/// The error, if any, that transforming `b` under `s` raises: a required
/// field (hash, author) read for an enabled column but absent is a missing
/// field; an enabled wide value outside its encoding's range is an encoding
/// error. Disabled columns never compute their values, so an absence there
/// is never observed.
pub open spec fn block_row_err(b: BlockData, s: BlockSchema) -> Option<CollectError> {
    if s.hash && b.hash is None {
        Some(CollectError::MissingField)
    } else if s.author && b.author is None {
        Some(CollectError::MissingField)
    } else if s.total_difficulty matches Some(e) && !enc_ok_opt(e, b.total_difficulty) {
        Some(CollectError::EncodingError)
    } else {
        None
    }
}

/// The accumulator state after one successfully transformed block: one new
/// row, each enabled column extended by that row's cell, disabled columns
/// untouched.
pub open spec fn block_step(v: BlockColumnsView, b: BlockData, s: BlockSchema) -> BlockColumnsView {
    BlockColumnsView {
        n_rows: v.n_rows + 1,
        hash: if s.hash {
            v.hash.push(b.hash->0@)
        } else {
            v.hash
        },
        parent_hash: if s.parent_hash {
            v.parent_hash.push(b.parent_hash@)
        } else {
            v.parent_hash
        },
        author: if s.author {
            v.author.push(b.author->0@)
        } else {
            v.author
        },
        state_root: if s.state_root {
            v.state_root.push(b.state_root@)
        } else {
            v.state_root
        },
        transactions_root: if s.transactions_root {
            v.transactions_root.push(b.transactions_root@)
        } else {
            v.transactions_root
        },
        receipts_root: if s.receipts_root {
            v.receipts_root.push(b.receipts_root@)
        } else {
            v.receipts_root
        },
        block_number: if s.block_number {
            v.block_number.push(b.number)
        } else {
            v.block_number
        },
        gas_used: if s.gas_used {
            v.gas_used.push(b.gas_used)
        } else {
            v.gas_used
        },
        extra_data: if s.extra_data {
            v.extra_data.push(b.extra_data@)
        } else {
            v.extra_data
        },
        logs_bloom: if s.logs_bloom {
            v.logs_bloom.push(opt_bytes_view(b.logs_bloom))
        } else {
            v.logs_bloom
        },
        timestamp: if s.timestamp {
            v.timestamp.push(b.timestamp)
        } else {
            v.timestamp
        },
        total_difficulty: match s.total_difficulty {
            Some(e) => v.total_difficulty.push(encoded_cell_opt(e, b.total_difficulty)),
            None => v.total_difficulty,
        },
        size: if s.size {
            v.size.push(b.size)
        } else {
            v.size
        },
        base_fee_per_gas: if s.base_fee_per_gas {
            v.base_fee_per_gas.push(b.base_fee_per_gas)
        } else {
            v.base_fee_per_gas
        },
    }
}

/// Stores the six chain-guaranteed byte fields and the two required
/// optional ones of one block row.
#[verifier::rlimit(100)]
fn store_block_hashes(block: &BlockData, columns: &mut BlockColumns, schema: &BlockSchema)
    requires
        schema.hash ==> block.hash is Some,
        schema.author ==> block.author is Some,
    ensures
        final(columns)@.hash == (if schema.hash {
            old(columns)@.hash.push(block.hash->0@)
        } else {
            old(columns)@.hash
        }),
        final(columns)@.parent_hash == (if schema.parent_hash {
            old(columns)@.parent_hash.push(block.parent_hash@)
        } else {
            old(columns)@.parent_hash
        }),
        final(columns)@.author == (if schema.author {
            old(columns)@.author.push(block.author->0@)
        } else {
            old(columns)@.author
        }),
        final(columns)@.state_root == (if schema.state_root {
            old(columns)@.state_root.push(block.state_root@)
        } else {
            old(columns)@.state_root
        }),
        final(columns)@.transactions_root == (if schema.transactions_root {
            old(columns)@.transactions_root.push(block.transactions_root@)
        } else {
            old(columns)@.transactions_root
        }),
        final(columns)@.receipts_root == (if schema.receipts_root {
            old(columns)@.receipts_root.push(block.receipts_root@)
        } else {
            old(columns)@.receipts_root
        }),
        final(columns).n_rows == old(columns).n_rows,
        final(columns)@.block_number == old(columns)@.block_number,
        final(columns)@.gas_used == old(columns)@.gas_used,
        final(columns)@.extra_data == old(columns)@.extra_data,
        final(columns)@.logs_bloom == old(columns)@.logs_bloom,
        final(columns)@.timestamp == old(columns)@.timestamp,
        final(columns).total_difficulty == old(columns).total_difficulty,
        final(columns)@.size == old(columns)@.size,
        final(columns)@.base_fee_per_gas == old(columns)@.base_fee_per_gas,
{
    let hash_value = match &block.hash {
        Some(h) => copy_bytes(h),
        None => Vec::new(),
    };
    store(schema.hash, &mut columns.hash, hash_value);
    store(schema.parent_hash, &mut columns.parent_hash, copy_bytes(&block.parent_hash));
    let author_value = match &block.author {
        Some(a) => copy_bytes(a),
        None => Vec::new(),
    };
    store(schema.author, &mut columns.author, author_value);
    store(schema.state_root, &mut columns.state_root, copy_bytes(&block.state_root));
    store(
        schema.transactions_root,
        &mut columns.transactions_root,
        copy_bytes(&block.transactions_root),
    );
    store(schema.receipts_root, &mut columns.receipts_root, copy_bytes(&block.receipts_root));
    proof {
        if schema.hash {
            assert(bytes_col_view(columns.hash@) =~= bytes_col_view(old(columns).hash@).push(
                block.hash->0@,
            ));
        }
        if schema.parent_hash {
            assert(bytes_col_view(columns.parent_hash@) =~= bytes_col_view(
                old(columns).parent_hash@,
            ).push(block.parent_hash@));
        }
        if schema.author {
            assert(bytes_col_view(columns.author@) =~= bytes_col_view(old(columns).author@).push(
                block.author->0@,
            ));
        }
        if schema.state_root {
            assert(bytes_col_view(columns.state_root@) =~= bytes_col_view(
                old(columns).state_root@,
            ).push(block.state_root@));
        }
        if schema.transactions_root {
            assert(bytes_col_view(columns.transactions_root@) =~= bytes_col_view(
                old(columns).transactions_root@,
            ).push(block.transactions_root@));
        }
        if schema.receipts_root {
            assert(bytes_col_view(columns.receipts_root@) =~= bytes_col_view(
                old(columns).receipts_root@,
            ).push(block.receipts_root@));
        }
    }
}

/// Stores the plain and optional scalar fields of one block row.
#[verifier::rlimit(100)]
fn store_block_scalars(block: &BlockData, columns: &mut BlockColumns, schema: &BlockSchema)
    ensures
        final(columns)@.block_number == (if schema.block_number {
            old(columns)@.block_number.push(block.number)
        } else {
            old(columns)@.block_number
        }),
        final(columns)@.gas_used == (if schema.gas_used {
            old(columns)@.gas_used.push(block.gas_used)
        } else {
            old(columns)@.gas_used
        }),
        final(columns)@.extra_data == (if schema.extra_data {
            old(columns)@.extra_data.push(block.extra_data@)
        } else {
            old(columns)@.extra_data
        }),
        final(columns)@.logs_bloom == (if schema.logs_bloom {
            old(columns)@.logs_bloom.push(opt_bytes_view(block.logs_bloom))
        } else {
            old(columns)@.logs_bloom
        }),
        final(columns)@.timestamp == (if schema.timestamp {
            old(columns)@.timestamp.push(block.timestamp)
        } else {
            old(columns)@.timestamp
        }),
        final(columns)@.size == (if schema.size {
            old(columns)@.size.push(block.size)
        } else {
            old(columns)@.size
        }),
        final(columns)@.base_fee_per_gas == (if schema.base_fee_per_gas {
            old(columns)@.base_fee_per_gas.push(block.base_fee_per_gas)
        } else {
            old(columns)@.base_fee_per_gas
        }),
        final(columns).n_rows == old(columns).n_rows,
        final(columns)@.hash == old(columns)@.hash,
        final(columns)@.parent_hash == old(columns)@.parent_hash,
        final(columns)@.author == old(columns)@.author,
        final(columns)@.state_root == old(columns)@.state_root,
        final(columns)@.transactions_root == old(columns)@.transactions_root,
        final(columns)@.receipts_root == old(columns)@.receipts_root,
        final(columns).total_difficulty == old(columns).total_difficulty,
{
    store(schema.block_number, &mut columns.block_number, block.number);
    store(schema.gas_used, &mut columns.gas_used, block.gas_used);
    store(schema.extra_data, &mut columns.extra_data, copy_bytes(&block.extra_data));
    store(schema.logs_bloom, &mut columns.logs_bloom, copy_opt_bytes(&block.logs_bloom));
    store(schema.timestamp, &mut columns.timestamp, block.timestamp);
    store(schema.size, &mut columns.size, block.size);
    store(schema.base_fee_per_gas, &mut columns.base_fee_per_gas, block.base_fee_per_gas);
    proof {
        if schema.extra_data {
            assert(bytes_col_view(columns.extra_data@) =~= bytes_col_view(
                old(columns).extra_data@,
            ).push(block.extra_data@));
        }
        if schema.logs_bloom {
            assert(opt_bytes_col_view(columns.logs_bloom@) =~= opt_bytes_col_view(
                old(columns).logs_bloom@,
            ).push(opt_bytes_view(block.logs_bloom)));
        }
    }
}

/// Stores one full block row; the caller has already established that the
/// row cannot fail.
#[verifier::rlimit(100)]
fn store_block_row(block: &BlockData, columns: &mut BlockColumns, schema: &BlockSchema)
    requires
        old(columns).wf(),
        old(columns).encodings_match(*schema),
        block.wf(),
        old(columns).n_rows < u64::MAX,
        block_row_err(*block, *schema) is None,
    ensures
        final(columns).wf(),
        final(columns).encodings_match(*schema),
        final(columns)@ == block_step(old(columns)@, *block, *schema),
{
    columns.n_rows = columns.n_rows + 1;
    store_block_hashes(block, columns, schema);
    store_block_scalars(block, columns, schema);
    let td = match &block.total_difficulty {
        Some(u) => Some(u.dup()),
        None => None,
    };
    let wr = store_wide_opt(&schema.total_difficulty, &mut columns.total_difficulty, &td);
    proof {
        assert(wr is Ok);
        let res = block_step(old(columns)@, *block, *schema);
        assert(columns@.total_difficulty == res.total_difficulty) by {
            match schema.total_difficulty {
                Some(e) => {
                    assert(columns.total_difficulty.cells()
                        =~= old(columns).total_difficulty.cells().push(
                        encoded_cell_opt(e, block.total_difficulty),
                    ));
                },
                None => {},
            }
        }
        assert(columns@ == res);
    }
}

/// Maps one fetched block into one row of the accumulator. Pure and
/// synchronous; appending to the accumulator is its only effect. A failed
/// row leaves the accumulator exactly as it was.
#[verifier::rlimit(100)]
pub fn process_block(block: &BlockData, columns: &mut BlockColumns, schema: &BlockSchema) -> (r:
    Result<(), CollectError>)
    requires
        old(columns).wf(),
        old(columns).encodings_match(*schema),
        block.wf(),
        old(columns).n_rows < u64::MAX,
    ensures
        final(columns).wf(),
        final(columns).encodings_match(*schema),
        r is Ok <==> block_row_err(*block, *schema) is None,
        r matches Err(e) ==> Some(e) == block_row_err(*block, *schema) && final(columns)@ == old(
            columns,
        )@,
        r is Ok ==> final(columns)@ == block_step(old(columns)@, *block, *schema),
        block_columns_ok(old(columns)@, *schema) && r is Ok ==> block_columns_ok(
            final(columns)@,
            *schema,
        ),
{
    // required fields and encodability are checked before any mutation, so a
    // failed row never leaves a partial append
    if schema.hash && block.hash.is_none() {
        return Err(CollectError::MissingField);
    }
    if schema.author && block.author.is_none() {
        return Err(CollectError::MissingField);
    }
    if let Some(e) = schema.total_difficulty {
        if matches!(e, Encoding::Words) {
            if let Some(td) = &block.total_difficulty {
                if !td.fits_words() {
                    return Err(CollectError::EncodingError);
                }
            }
        }
    }
    store_block_row(block, columns, schema);
    Ok(())
}

/// The dataset-level transform: looks the blocks descriptor up and maps the
/// response into the accumulator. The descriptor must have been loaded
/// before any extraction began.
pub fn blocks_transform(
    response: &BlockData,
    columns: &mut BlockColumns,
    schemas: &crate::schema::Schemas,
) -> (r: Result<(), CollectError>)
    requires
        schemas.blocks is Some,
        old(columns).wf(),
        old(columns).encodings_match(schemas.blocks->0),
        response.wf(),
        old(columns).n_rows < u64::MAX,
    ensures
        final(columns).wf(),
        final(columns).encodings_match(schemas.blocks->0),
        r is Ok <==> block_row_err(*response, schemas.blocks->0) is None,
        r matches Err(e) ==> Some(e) == block_row_err(*response, schemas.blocks->0)
            && final(columns)@ == old(columns)@,
        r is Ok ==> final(columns)@ == block_step(old(columns)@, *response, schemas.blocks->0),
{
    let schema = match schemas.blocks {
        Some(s) => s,
        None => BlockSchema::full(Encoding::Binary),
    };
    process_block(response, columns, &schema)
}

/// By-block extraction: the single fetch this dataset needs for one request
/// unit.
pub fn blocks_by_block_request(req: &RequestUnit) -> (r: FetchRequest)
    requires
        req is ByBlock,
    ensures
        r == FetchRequest::BlockByNumber(req->ByBlock_0),
{
    match req {
        RequestUnit::ByBlock(n) => FetchRequest::BlockByNumber(*n),
        RequestUnit::ByTransaction(_) => FetchRequest::BlockByNumber(0),
    }
}

/// The decision on a fetched optional block: an absent block means the
/// request unit was valid but unresolvable.
pub fn blocks_block_response(resp: Option<BlockData>) -> (r: Result<BlockData, CollectError>)
    ensures
        match resp {
            Some(b) => r matches Ok(rb) && rb == b,
            None => r == Result::<BlockData, CollectError>::Err(CollectError::NotFound),
        },
{
    match resp {
        Some(b) => Ok(b),
        None => Err(CollectError::NotFound),
    }
}

/// By-transaction extraction, first step: resolve the transaction.
pub fn blocks_by_transaction_request(req: &RequestUnit) -> (r: FetchRequest)
    requires
        req is ByTransaction,
    ensures
        r matches FetchRequest::TransactionByHash(h) && h@ == req->ByTransaction_0@,
{
    match req {
        RequestUnit::ByTransaction(h) => FetchRequest::TransactionByHash(copy_bytes(h)),
        RequestUnit::ByBlock(_) => FetchRequest::TransactionByHash(Vec::new()),
    }
}

/// By-transaction extraction, second step: from the resolved transaction,
/// decide the block fetch. An absent transaction is `NotFound`; a resolved
/// transaction without a containing block hash lacks a structurally required
/// field.
pub fn blocks_transaction_response(resp: Option<TransactionData>) -> (r: Result<
    FetchRequest,
    CollectError,
>)
    ensures
        resp is None ==> r == Result::<FetchRequest, CollectError>::Err(CollectError::NotFound),
        resp matches Some(t) ==> match t.block_hash {
            Some(h) => r matches Ok(f) && f matches FetchRequest::BlockByHash(g) && g@ == h@,
            None => r == Result::<FetchRequest, CollectError>::Err(CollectError::MissingField),
        },
{
    match resp {
        Some(t) => match &t.block_hash {
            Some(h) => Ok(FetchRequest::BlockByHash(copy_bytes(h))),
            None => Err(CollectError::MissingField),
        },
        None => Err(CollectError::NotFound),
    }
}

} // verus!
