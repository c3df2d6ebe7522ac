//! The balance-diffs dataset: per-account balance changes from execution
//! traces, classified into four mutually exclusive cases.

use crate::columns::bytes_col_view;
use crate::columns::copy_bytes;
use crate::columns::copy_opt_bytes;
use crate::columns::enc_ok;
use crate::columns::encoded_cell;
use crate::columns::opt_bytes_col_view;
use crate::columns::opt_bytes_view;
use crate::columns::store;
use crate::columns::store_wide;
use crate::columns::EncodedColumn;
use crate::columns::WideCell;
use crate::schema::BalanceDiffSchema;
use crate::schema::Encoding;
use crate::types::CollectError;
use crate::types::FetchRequest;
use crate::types::RequestUnit;
use crate::wide::be_bytes;
use crate::wide::U256;
use vstd::prelude::*;

verus! {

/// A before/after balance change of one account, as the trace reports it.
pub enum Diff {
    /// The balance did not change.
    Same,
    /// The account did not exist and now exists with the given balance.
    Born(U256),
    /// The account existed with the given balance and now does not.
    Died(U256),
    /// The balance moved between the two observed endpoints.
    Changed(U256, U256),
}

impl Diff {
    pub open spec fn wf(&self) -> bool {
        match self {
            Diff::Same => true,
            Diff::Born(v) => v.wf(),
            Diff::Died(v) => v.wf(),
            Diff::Changed(f, t) => f.wf() && t.wf(),
        }
    }
}

/// The 32-byte representation of the row's `from` value.
pub open spec fn diff_from_rep(d: Diff) -> Seq<u8> {
    match d {
        Diff::Same => be_bytes(0, 32),
        Diff::Born(_) => be_bytes(0, 32),
        Diff::Died(v) => v.rep(),
        Diff::Changed(f, _) => f.rep(),
    }
}

/// The 32-byte representation of the row's `to` value.
pub open spec fn diff_to_rep(d: Diff) -> Seq<u8> {
    match d {
        Diff::Same => be_bytes(0, 32),
        Diff::Born(v) => v.rep(),
        Diff::Died(_) => be_bytes(0, 32),
        Diff::Changed(_, t) => t.rep(),
    }
}

/// One account's balance diff inside a trace, in trace iteration order.
pub struct BalanceEntry {
    pub address: Vec<u8>,
    pub balance: Diff,
}

/// One execution trace; a trace without a state diff yields no rows.
pub struct TraceData {
    pub state_diff: Option<Vec<BalanceEntry>>,
}

/// The abstract state of a balance-diff column accumulator.
pub struct BalanceDiffColumnsView {
    pub n_rows: nat,
    pub block_number: Seq<Option<u32>>,
    pub transaction_index: Seq<Option<u64>>,
    pub transaction_hash: Seq<Option<Seq<u8>>>,
    pub address: Seq<Seq<u8>>,
    pub from_value: Seq<WideCell>,
    pub to_value: Seq<WideCell>,
}

/// Column accumulator for the balance-diffs dataset.
pub struct BalanceDiffColumns {
    pub n_rows: u64,
    pub block_number: Vec<Option<u32>>,
    pub transaction_index: Vec<Option<u64>>,
    pub transaction_hash: Vec<Option<Vec<u8>>>,
    pub address: Vec<Vec<u8>>,
    pub from_value: EncodedColumn,
    pub to_value: EncodedColumn,
}

impl View for BalanceDiffColumns {
    type V = BalanceDiffColumnsView;

    open spec fn view(&self) -> BalanceDiffColumnsView {
        BalanceDiffColumnsView {
            n_rows: self.n_rows as nat,
            block_number: self.block_number@,
            transaction_index: self.transaction_index@,
            transaction_hash: opt_bytes_col_view(self.transaction_hash@),
            address: bytes_col_view(self.address@),
            from_value: self.from_value.cells(),
            to_value: self.to_value.cells(),
        }
    }
}

/// The accumulator invariant: enabled columns as long as the row counter,
/// disabled columns empty.
pub open spec fn balance_diff_columns_ok(v: BalanceDiffColumnsView, s: BalanceDiffSchema) -> bool {
    &&& v.block_number.len() == (if s.block_number {
        v.n_rows
    } else {
        0
    })
    &&& v.transaction_index.len() == (if s.transaction_index {
        v.n_rows
    } else {
        0
    })
    &&& v.transaction_hash.len() == (if s.transaction_hash {
        v.n_rows
    } else {
        0
    })
    &&& v.address.len() == (if s.address {
        v.n_rows
    } else {
        0
    })
    &&& v.from_value.len() == (if s.from_value is Some {
        v.n_rows
    } else {
        0
    })
    &&& v.to_value.len() == (if s.to_value is Some {
        v.n_rows
    } else {
        0
    })
}

/// The view of a freshly created balance-diff accumulator.
pub open spec fn empty_balance_diff_view() -> BalanceDiffColumnsView {
    BalanceDiffColumnsView {
        n_rows: 0,
        block_number: Seq::empty(),
        transaction_index: Seq::empty(),
        transaction_hash: Seq::empty(),
        address: Seq::empty(),
        from_value: Seq::empty(),
        to_value: Seq::empty(),
    }
}

impl BalanceDiffColumns {
    pub open spec fn encodings_match(&self, s: BalanceDiffSchema) -> bool {
        &&& (s.from_value matches Some(e) ==> self.from_value.enc == e)
        &&& (s.to_value matches Some(e) ==> self.to_value.enc == e)
    }

    pub open spec fn wf(&self) -> bool {
        self.from_value.wf() && self.to_value.wf()
    }

    /// An empty accumulator for the given schema.
    pub fn new(s: &BalanceDiffSchema) -> (r: BalanceDiffColumns)
        ensures
            r.wf(),
            r.encodings_match(*s),
            r@ == empty_balance_diff_view(),
            balance_diff_columns_ok(r@, *s),
    {
        let from_enc = match s.from_value {
            Some(e) => e,
            None => Encoding::Binary,
        };
        let to_enc = match s.to_value {
            Some(e) => e,
            None => Encoding::Binary,
        };
        let r = BalanceDiffColumns {
            n_rows: 0,
            block_number: Vec::new(),
            transaction_index: Vec::new(),
            transaction_hash: Vec::new(),
            address: Vec::new(),
            from_value: EncodedColumn::new(from_enc),
            to_value: EncodedColumn::new(to_enc),
        };
        proof {
            assert(bytes_col_view(Seq::<Vec<u8>>::empty()) =~= Seq::<Seq<u8>>::empty());
            assert(opt_bytes_col_view(Seq::<Option<Vec<u8>>>::empty()) =~= Seq::<
                Option<Seq<u8>>,
            >::empty());
            assert(r@ == empty_balance_diff_view());
        }
        r
    }
}

/// The error, if any, that one diff row raises under the schema: an enabled
/// endpoint outside its encoding's range.
pub open spec fn diff_row_err(d: Diff, s: BalanceDiffSchema) -> Option<CollectError> {
    if s.from_value matches Some(e) && !enc_ok(e, diff_from_rep(d)) {
        Some(CollectError::EncodingError)
    } else if s.to_value matches Some(e) && !enc_ok(e, diff_to_rep(d)) {
        Some(CollectError::EncodingError)
    } else {
        None
    }
}

/// The accumulator state after one diff row.
pub open spec fn diff_step(
    v: BalanceDiffColumnsView,
    addr: Seq<u8>,
    d: Diff,
    bn: Option<u32>,
    txh: Option<Seq<u8>>,
    idx: nat,
    s: BalanceDiffSchema,
) -> BalanceDiffColumnsView {
    BalanceDiffColumnsView {
        n_rows: v.n_rows + 1,
        block_number: if s.block_number {
            v.block_number.push(bn)
        } else {
            v.block_number
        },
        transaction_index: if s.transaction_index {
            v.transaction_index.push(Some(idx as u64))
        } else {
            v.transaction_index
        },
        transaction_hash: if s.transaction_hash {
            v.transaction_hash.push(txh)
        } else {
            v.transaction_hash
        },
        address: if s.address {
            v.address.push(addr)
        } else {
            v.address
        },
        from_value: match s.from_value {
            Some(e) => v.from_value.push(encoded_cell(e, diff_from_rep(d))),
            None => v.from_value,
        },
        to_value: match s.to_value {
            Some(e) => v.to_value.push(encoded_cell(e, diff_to_rep(d))),
            None => v.to_value,
        },
    }
}

/// Classifies one diff into its `(from, to)` endpoint pair.
fn diff_endpoints(d: &Diff) -> (r: (U256, U256))
    requires
        d.wf(),
    ensures
        r.0.wf(),
        r.1.wf(),
        r.0.rep() == diff_from_rep(*d),
        r.1.rep() == diff_to_rep(*d),
{
    match d {
        Diff::Same => (U256::zero(), U256::zero()),
        Diff::Born(v) => (U256::zero(), v.dup()),
        Diff::Died(v) => (v.dup(), U256::zero()),
        Diff::Changed(f, t) => (f.dup(), t.dup()),
    }
}

/// Whether the row's endpoints are representable under the schema's
/// encodings.
fn check_diff_row(d: &Diff, s: &BalanceDiffSchema) -> (r: bool)
    requires
        d.wf(),
    ensures
        r <==> diff_row_err(*d, *s) is None,
{
    let ep = diff_endpoints(d);
    let from_ok = match s.from_value {
        Some(Encoding::Words) => ep.0.fits_words(),
        _ => true,
    };
    let to_ok = match s.to_value {
        Some(Encoding::Words) => ep.1.fits_words(),
        _ => true,
    };
    from_ok && to_ok
}

/// Maps one `(address, diff)` pair into one row of the accumulator. A failed
/// row leaves the accumulator exactly as it was.
#[verifier::rlimit(100)]
pub fn process_balance_diff(
    addr: &Vec<u8>,
    diff: &Diff,
    block_number: &Option<u32>,
    transaction_hash: &Option<Vec<u8>>,
    transaction_index: usize,
    columns: &mut BalanceDiffColumns,
    schema: &BalanceDiffSchema,
) -> (r: Result<(), CollectError>)
    requires
        old(columns).wf(),
        old(columns).encodings_match(*schema),
        diff.wf(),
        old(columns).n_rows < u64::MAX,
    ensures
        final(columns).wf(),
        final(columns).encodings_match(*schema),
        r is Ok <==> diff_row_err(*diff, *schema) is None,
        r matches Err(e) ==> Some(e) == diff_row_err(*diff, *schema) && final(columns)@ == old(
            columns,
        )@,
        r is Ok ==> final(columns)@ == diff_step(
            old(columns)@,
            addr@,
            *diff,
            *block_number,
            opt_bytes_view(*transaction_hash),
            transaction_index as nat,
            *schema,
        ),
        balance_diff_columns_ok(old(columns)@, *schema) && r is Ok ==> balance_diff_columns_ok(
            final(columns)@,
            *schema,
        ),
{
    if !check_diff_row(diff, schema) {
        return Err(CollectError::EncodingError);
    }
    let ep = diff_endpoints(diff);
    columns.n_rows = columns.n_rows + 1;
    store(schema.block_number, &mut columns.block_number, *block_number);
    store(
        schema.transaction_index,
        &mut columns.transaction_index,
        Some(transaction_index as u64),
    );
    store(schema.transaction_hash, &mut columns.transaction_hash, copy_opt_bytes(transaction_hash));
    store(schema.address, &mut columns.address, copy_bytes(addr));
    let fr = store_wide(&schema.from_value, &mut columns.from_value, &ep.0);
    let tr = store_wide(&schema.to_value, &mut columns.to_value, &ep.1);
    proof {
        assert(fr is Ok && tr is Ok);
        let res = diff_step(
            old(columns)@,
            addr@,
            *diff,
            *block_number,
            opt_bytes_view(*transaction_hash),
            transaction_index as nat,
            *schema,
        );
        assert(columns@.transaction_hash == res.transaction_hash) by {
            if schema.transaction_hash {
                assert(opt_bytes_col_view(columns.transaction_hash@) =~= opt_bytes_col_view(
                    old(columns).transaction_hash@,
                ).push(opt_bytes_view(*transaction_hash)));
            }
        }
        assert(columns@.address == res.address) by {
            if schema.address {
                assert(bytes_col_view(columns.address@) =~= bytes_col_view(
                    old(columns).address@,
                ).push(addr@));
            }
        }
        assert(columns@ == res);
    }
    Ok(())
}

/// The number of rows a trace list yields: one per `(address, diff)` pair.
pub open spec fn total_rows(traces: Seq<TraceData>) -> nat
    decreases traces.len(),
{
    if traces.len() == 0 {
        0
    } else {
        (match traces[0].state_diff {
            Some(l) => l@.len(),
            None => 0,
        }) + total_rows(traces.skip(1))
    }
}

/// Every diff value in the list is well formed.
pub open spec fn trace_wf(t: TraceData) -> bool {
    t.state_diff matches Some(l) ==> forall|j: int|
        0 <= j < l@.len() ==> (#[trigger] l@[j]).balance.wf()
}

pub open spec fn traces_wf(traces: Seq<TraceData>) -> bool {
    forall|i: int| 0 <= i < traces.len() ==> trace_wf(#[trigger] traces[i])
}

/// No row of the trace list raises an encoding error under the schema.
pub open spec fn trace_rows_ok(t: TraceData, s: BalanceDiffSchema) -> bool {
    t.state_diff matches Some(l) ==> forall|j: int|
        0 <= j < l@.len() ==> diff_row_err((#[trigger] l@[j]).balance, s) is None
}

pub open spec fn traces_rows_ok(traces: Seq<TraceData>, s: BalanceDiffSchema) -> bool {
    forall|i: int| 0 <= i < traces.len() ==> trace_rows_ok(#[trigger] traces[i], s)
}

/// The accumulator state after one trace's entries, in iteration order.
pub open spec fn apply_entries(
    v: BalanceDiffColumnsView,
    entries: Seq<BalanceEntry>,
    bn: Option<u32>,
    txh: Option<Seq<u8>>,
    idx: nat,
    s: BalanceDiffSchema,
) -> BalanceDiffColumnsView
    decreases entries.len(),
{
    if entries.len() == 0 {
        v
    } else {
        apply_entries(
            diff_step(v, entries[0].address@, entries[0].balance, bn, txh, idx, s),
            entries.skip(1),
            bn,
            txh,
            idx,
            s,
        )
    }
}

/// The accumulator state after a whole trace list, traces in order, indexed
/// by their position.
pub open spec fn apply_traces(
    v: BalanceDiffColumnsView,
    traces: Seq<TraceData>,
    bn: Option<u32>,
    txh: Option<Seq<u8>>,
    idx: nat,
    s: BalanceDiffSchema,
) -> BalanceDiffColumnsView
    decreases traces.len(),
{
    if traces.len() == 0 {
        v
    } else {
        apply_traces(
            match traces[0].state_diff {
                Some(l) => apply_entries(v, l@, bn, txh, idx, s),
                None => v,
            },
            traces.skip(1),
            bn,
            txh,
            idx + 1,
            s,
        )
    }
}

proof fn lemma_apply_entries_rows(
    v: BalanceDiffColumnsView,
    entries: Seq<BalanceEntry>,
    bn: Option<u32>,
    txh: Option<Seq<u8>>,
    idx: nat,
    s: BalanceDiffSchema,
)
    ensures
        apply_entries(v, entries, bn, txh, idx, s).n_rows == v.n_rows + entries.len(),
    decreases entries.len(),
{
    if entries.len() > 0 {
        lemma_apply_entries_rows(
            diff_step(v, entries[0].address@, entries[0].balance, bn, txh, idx, s),
            entries.skip(1),
            bn,
            txh,
            idx,
            s,
        );
    }
}

/// Maps one fetched trace response into rows: one per `(address, diff)`
/// pair, in trace iteration order. Either every row is appended, or no row
/// is and the encoding error is reported.
pub fn process_balance_diffs(
    response: &(Option<u32>, Option<Vec<u8>>, Vec<TraceData>),
    columns: &mut BalanceDiffColumns,
    schema: &BalanceDiffSchema,
) -> (r: Result<(), CollectError>)
    requires
        old(columns).wf(),
        old(columns).encodings_match(*schema),
        traces_wf(response.2@),
        old(columns).n_rows + total_rows(response.2@) <= u64::MAX,
    ensures
        final(columns).wf(),
        final(columns).encodings_match(*schema),
        r is Ok <==> traces_rows_ok(response.2@, *schema),
        r matches Err(e) ==> e == CollectError::EncodingError && final(columns)@ == old(columns)@,
        r is Ok ==> final(columns)@ == apply_traces(
            old(columns)@,
            response.2@,
            response.0,
            opt_bytes_view(response.1),
            0,
            *schema,
        ),
        balance_diff_columns_ok(old(columns)@, *schema) && r is Ok ==> balance_diff_columns_ok(
            final(columns)@,
            *schema,
        ),
{
    let ghost traces = response.2@;
    // first pass: check every row, so that a failing row aborts before any
    // append and no partial accumulator can be materialized
    let mut i: usize = 0;
    while i < response.2.len()
        invariant
            i <= traces.len(),
            traces == response.2@,
            traces_wf(traces),
            columns@ == old(columns)@,
            columns.wf(),
            columns.encodings_match(*schema),
            forall|k: int| 0 <= k < i ==> trace_rows_ok(#[trigger] traces[k], *schema),
        decreases traces.len() - i,
    {
        match &response.2[i].state_diff {
            Some(entries) => {
                let mut j: usize = 0;
                while j < entries.len()
                    invariant
                        j <= entries@.len(),
                        i < traces.len(),
                        traces == response.2@,
                        trace_wf(traces[i as int]),
                        columns@ == old(columns)@,
                        columns.wf(),
                        columns.encodings_match(*schema),
                        traces[i as int].state_diff matches Some(l) && l@ == entries@,
                        forall|m: int|
                            0 <= m < j ==> diff_row_err((#[trigger] entries@[m]).balance, *schema)
                                is None,
                    decreases entries@.len() - j,
                {
                    if !check_diff_row(&entries[j].balance, schema) {
                        proof {
                            assert(diff_row_err((entries@[j as int]).balance, *schema) is Some);
                            assert(!trace_rows_ok(traces[i as int], *schema));
                            assert(!traces_rows_ok(traces, *schema));
                        }
                        return Err(CollectError::EncodingError);
                    }
                    j = j + 1;
                }
            },
            None => {},
        }
        i = i + 1;
    }
    // second pass: append every row
    let ghost v0 = columns@;
    let ghost txh = opt_bytes_view(response.1);
    let mut i: usize = 0;
    proof {
        assert(traces.skip(0) =~= traces);
    }
    while i < response.2.len()
        invariant
            i <= traces.len(),
            traces == response.2@,
            traces_wf(traces),
            traces_rows_ok(traces, *schema),
            columns.wf(),
            columns.encodings_match(*schema),
            txh == opt_bytes_view(response.1),
            columns.n_rows + total_rows(traces.skip(i as int)) <= u64::MAX,
            apply_traces(v0, traces, response.0, txh, 0, *schema) == apply_traces(
                columns@,
                traces.skip(i as int),
                response.0,
                txh,
                i as nat,
                *schema,
            ),
            balance_diff_columns_ok(v0, *schema) ==> balance_diff_columns_ok(columns@, *schema),
        decreases traces.len() - i,
    {
        let ghost pre_outer = columns@;
        proof {
            assert(traces.skip(i as int)[0] == traces[i as int]);
            assert(traces.skip(i as int).skip(1) =~= traces.skip(i + 1));
            assert(total_rows(traces.skip(i as int)) == (match traces[i as int].state_diff {
                Some(l) => l@.len(),
                None => 0,
            }) + total_rows(traces.skip(i + 1)));
        }
        match &response.2[i].state_diff {
            Some(entries) => {
                let ghost l = entries@;
                let mut j: usize = 0;
                proof {
                    assert(l.skip(0) =~= l);
                }
                while j < entries.len()
                    invariant
                        j <= l.len(),
                        traces == response.2@,
                        traces[i as int].state_diff matches Some(el) && el@ == l,
                        l == entries@,
                        i < traces.len(),
                        trace_wf(traces[i as int]),
                        trace_rows_ok(traces[i as int], *schema),
                        columns.wf(),
                        columns.encodings_match(*schema),
                        txh == opt_bytes_view(response.1),
                        columns.n_rows + (l.len() - j) + total_rows(traces.skip(i + 1))
                            <= u64::MAX,
                        apply_entries(pre_outer, l, response.0, txh, i as nat, *schema)
                            == apply_entries(
                            columns@,
                            l.skip(j as int),
                            response.0,
                            txh,
                            i as nat,
                            *schema,
                        ),
                        balance_diff_columns_ok(pre_outer, *schema) ==> balance_diff_columns_ok(
                            columns@,
                            *schema,
                        ),
                    decreases l.len() - j,
                {
                    proof {
                        assert(l.skip(j as int)[0] == l[j as int]);
                        assert(l.skip(j as int).skip(1) =~= l.skip(j + 1));
                        assert(diff_row_err(l[j as int].balance, *schema) is None);
                    }
                    let ghost pre = columns@;
                    let entry = &entries[j];
                    let pr = process_balance_diff(
                        &entry.address,
                        &entry.balance,
                        &response.0,
                        &response.1,
                        i,
                        columns,
                        schema,
                    );
                    proof {
                        assert(pr is Ok);
                        assert(entry.address@ == l[j as int].address@);
                        assert(entry.balance == l[j as int].balance);
                        assert(opt_bytes_view(response.1) == txh);
                        assert(columns@ == diff_step(
                            pre,
                            entry.address@,
                            entry.balance,
                            response.0,
                            txh,
                            i as nat,
                            *schema,
                        ));
                        assert(columns@ == diff_step(
                            pre,
                            l[j as int].address@,
                            l[j as int].balance,
                            response.0,
                            txh,
                            i as nat,
                            *schema,
                        ));
                        assert(apply_entries(pre, l.skip(j as int), response.0, txh, i as nat, *schema)
                            == apply_entries(
                            columns@,
                            l.skip(j + 1),
                            response.0,
                            txh,
                            i as nat,
                            *schema,
                        ));
                    }
                    j = j + 1;
                }
                proof {
                    assert(l.skip(l.len() as int) =~= Seq::<BalanceEntry>::empty());
                    assert(columns@ == apply_entries(
                        pre_outer,
                        l,
                        response.0,
                        txh,
                        i as nat,
                        *schema,
                    ));
                    lemma_apply_entries_rows(pre_outer, l, response.0, txh, i as nat, *schema);
                }
            },
            None => {},
        }
        proof {
            assert(apply_traces(pre_outer, traces.skip(i as int), response.0, txh, i as nat, *schema)
                == apply_traces(
                columns@,
                traces.skip(i + 1),
                response.0,
                txh,
                (i + 1) as nat,
                *schema,
            ));
        }
        i = i + 1;
    }
    proof {
        assert(traces.skip(traces.len() as int) =~= Seq::<TraceData>::empty());
    }
    Ok(())
}

/// The dataset-level transform: looks the balance-diffs descriptor up and
/// maps the response into the accumulator. The descriptor must have been
/// loaded before any extraction began.
pub fn balance_diffs_transform(
    response: &(Option<u32>, Option<Vec<u8>>, Vec<TraceData>),
    columns: &mut BalanceDiffColumns,
    schemas: &crate::schema::Schemas,
) -> (r: Result<(), CollectError>)
    requires
        schemas.balance_diffs is Some,
        old(columns).wf(),
        old(columns).encodings_match(schemas.balance_diffs->0),
        traces_wf(response.2@),
        old(columns).n_rows + total_rows(response.2@) <= u64::MAX,
    ensures
        final(columns).wf(),
        final(columns).encodings_match(schemas.balance_diffs->0),
        r is Ok <==> traces_rows_ok(response.2@, schemas.balance_diffs->0),
        r matches Err(e) ==> e == CollectError::EncodingError && final(columns)@ == old(columns)@,
        r is Ok ==> final(columns)@ == apply_traces(
            old(columns)@,
            response.2@,
            response.0,
            opt_bytes_view(response.1),
            0,
            schemas.balance_diffs->0,
        ),
{
    let schema = match schemas.balance_diffs {
        Some(s) => s,
        None => BalanceDiffSchema::full(Encoding::Binary),
    };
    process_balance_diffs(response, columns, &schema)
}

/// By-block extraction: one state-diff trace fetch for the block.
pub fn balance_diffs_by_block_request(req: &RequestUnit) -> (r: FetchRequest)
    requires
        req is ByBlock,
    ensures
        r == FetchRequest::BlockStateDiffs(req->ByBlock_0),
{
    match req {
        RequestUnit::ByBlock(n) => FetchRequest::BlockStateDiffs(*n),
        RequestUnit::ByTransaction(_) => FetchRequest::BlockStateDiffs(0),
    }
}

/// By-transaction extraction: one state-diff trace fetch for the
/// transaction.
pub fn balance_diffs_by_transaction_request(req: &RequestUnit) -> (r: FetchRequest)
    requires
        req is ByTransaction,
    ensures
        r matches FetchRequest::TransactionStateDiffs(h) && h@ == req->ByTransaction_0@,
{
    match req {
        RequestUnit::ByTransaction(h) => FetchRequest::TransactionStateDiffs(copy_bytes(h)),
        RequestUnit::ByBlock(_) => FetchRequest::TransactionStateDiffs(Vec::new()),
    }
}

} // verus!
