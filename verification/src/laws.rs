//! Stated and proved properties of the transforms that span more than one
//! function.

use crate::balance_diffs::apply_traces;
use crate::balance_diffs::diff_from_rep;
use crate::balance_diffs::diff_to_rep;
use crate::balance_diffs::BalanceDiffColumnsView;
use crate::balance_diffs::Diff;
use crate::balance_diffs::TraceData;
use crate::blocks::block_step;
use crate::blocks::BlockColumnsView;
use crate::blocks::BlockData;
use crate::schema::BalanceDiffSchema;
use crate::schema::BlockSchema;
use crate::wide::be_val;
use crate::wide::lemma_be_val_of_be_bytes;
use crate::wide::lemma_pow256_pos;
use crate::wide::pow256;
use vstd::prelude::*;

verus! {

/// The net balance change a diff reports, as a signed quantity.
pub open spec fn net_change(d: Diff) -> int {
    match d {
        Diff::Same => 0,
        Diff::Born(v) => v.val() as int,
        Diff::Died(v) => -(v.val() as int),
        Diff::Changed(f, t) => t.val() as int - f.val() as int,
    }
}

/// Balance-diff classification is total and exclusive: every diff falls
/// under exactly one of the four cases, and the `(from, to)` pair each case
/// yields satisfies `to - from == net change (mod 2^256)`.
pub proof fn lemma_diff_classification(d: Diff)
    requires
        d.wf(),
    ensures
        (if d is Same {
            1int
        } else {
            0
        }) + (if d is Born {
            1int
        } else {
            0
        }) + (if d is Died {
            1int
        } else {
            0
        }) + (if d is Changed {
            1int
        } else {
            0
        }) == 1,
        (be_val(diff_to_rep(d)) - be_val(diff_from_rep(d))) % (pow256(32) as int) == net_change(d)
            % (pow256(32) as int),
{
    lemma_pow256_pos(32);
    lemma_be_val_of_be_bytes(0, 32);
    match d {
        Diff::Same => {},
        Diff::Born(v) => {},
        Diff::Died(v) => {},
        Diff::Changed(f, t) => {},
    }
}

/// Idempotence of the block transform: its outcome is a function of the
/// accumulator contents, the response and the schema alone, so resetting an
/// accumulator and re-running the transform on the same response and schema
/// yields identical column contents.
pub proof fn lemma_block_transform_repeatable(
    a: BlockColumnsView,
    b: BlockColumnsView,
    blk: BlockData,
    s: BlockSchema,
)
    requires
        a == b,
    ensures
        block_step(a, blk, s) == block_step(b, blk, s),
{
}

/// Idempotence of the balance-diff transform, in the same sense.
pub proof fn lemma_balance_diff_transform_repeatable(
    a: BalanceDiffColumnsView,
    b: BalanceDiffColumnsView,
    traces: Seq<TraceData>,
    bn: Option<u32>,
    txh: Option<Seq<u8>>,
    s: BalanceDiffSchema,
)
    requires
        a == b,
    ensures
        apply_traces(a, traces, bn, txh, 0, s) == apply_traces(b, traces, bn, txh, 0, s),
{
}

} // verus!
