//! Settlement rules: which status changes a settlement may go through, and
//! how the unsettled transactions of an asset are cut into batches.

use bigdecimal::BigDecimal;
use uuid::Uuid;
use vstd::prelude::*;

use crate::decimal::{
    add_decimals, decimal_from_i64, decimal_is_positive, decimal_of, decimal_sum, decimal_text,
    decimal_to_string, is_positive,
};
use crate::error::AppError;
use crate::text::{concat, decimal, decimal_string, owned};
use crate::validation::all_whitespace;
use crate::validation::state_transitions::{allows, settlement_table};

verus! {

/// The detail of a refused settlement status change.
pub open spec fn refusal_detail(from: Seq<char>, to: Seq<char>) -> Seq<char> {
    "invalid transition: "@ + from + " -> "@ + to
}

/// Whether a settlement may move from status `from` to `to`: the same
/// status, or a step of the settlement lifecycle.
pub fn valid_transition(from: &str, to: &str) -> (r: bool)
    ensures
        r == allows(from@, to@, settlement_table()),
{
    let table = crate::validation::state_transitions::settlement_transitions();
    crate::validation::state_transitions::is_valid_transition(from, to, table.as_slice())
}

/// The check made before a settlement's status is changed from `current`
/// to `new_status`: a change the lifecycle does not allow is a bad request.
pub fn check_status_update(current: &str, new_status: &str) -> (r: Result<(), AppError>)
    ensures
        allows(current@, new_status@, settlement_table()) ==> r is Ok,
        !allows(current@, new_status@, settlement_table()) ==> (r matches Err(AppError::BadRequest(d))
            && d@ == refusal_detail(current@, new_status@)),
{
    if valid_transition(current, new_status) {
        Ok(())
    } else {
        let a = concat("invalid transition: ", current);
        let b = concat(a.as_str(), " -> ");
        Err(AppError::BadRequest(concat(b.as_str(), new_status)))
    }
}

/// The check made on an asset code before settling it: it must not be
/// blank.
pub fn check_asset_code(asset_code: &str) -> (r: Result<(), AppError>)
    ensures
        !all_whitespace(asset_code@) ==> r is Ok,
        all_whitespace(asset_code@) ==> (r matches Err(AppError::InvalidSettlementAmount(d))
            && d@ == "asset_code must not be empty"@),
{
    if crate::validation::is_blank(asset_code) {
        Err(AppError::InvalidSettlementAmount(owned("asset_code must not be empty")))
    } else {
        Ok(())
    }
}

/// The `k`-th batch, as a half-open range of positions, when `total`
/// transactions are cut into batches of `size`.
pub open spec fn batch(k: nat, size: nat, total: nat) -> (nat, nat) {
    let start = k * size;
    (start, if start + size <= total { start + size } else { total })
}

/// The number of batches of `size` needed for `total` transactions.
pub open spec fn batch_count(total: nat, size: nat) -> nat
    recommends
        size > 0,
{
    ((total + size - 1) / size as int) as nat
}

/// The batches cover the `total` transactions exactly once, in order: the
/// first starts at position 0, each ends where the next starts, the last
/// ends at `total`, and none is empty or longer than `size`.
pub proof fn lemma_batches_partition(total: nat, size: nat)
    requires
        size > 0,
        total > 0,
    ensures
        batch_count(total, size) > 0,
        batch(0, size, total).0 == 0,
        batch((batch_count(total, size) - 1) as nat, size, total).1 == total,
        forall|k: nat|
            k < batch_count(total, size) ==> #[trigger] batch(k, size, total).0 < batch(k, size, total).1 <= batch(
                k,
                size,
                total,
            ).0 + size,
        forall|k: nat| k + 1 < batch_count(total, size) ==> #[trigger] batch(k, size, total).1 == batch(
            (k + 1) as nat,
            size,
            total,
        ).0,
{
    let n = batch_count(total, size) as int;
    let m = size as int;
    let t = total as int;
    assert(n == (t + m - 1) / m);
    assert(n > 0 && (n - 1) * m < t && t <= n * m) by (nonlinear_arith)
        requires
            n == (t + m - 1) / m,
            m > 0,
            t > 0,
    ;
    assert(0 * m == 0) by (nonlinear_arith);
    assert((n - 1) * m + m == n * m) by (nonlinear_arith);
    assert forall|k: nat| k < batch_count(total, size) implies #[trigger] batch(k, size, total).0 < batch(
        k,
        size,
        total,
    ).1 <= batch(k, size, total).0 + size by {
        assert(k * m <= (n - 1) * m) by (nonlinear_arith)
            requires
                k < n,
                m > 0,
        ;
    }
    assert forall|k: nat| k + 1 < batch_count(total, size) implies #[trigger] batch(k, size, total).1 == batch(
        (k + 1) as nat,
        size,
        total,
    ).0 by {
        assert(k * m + m == (k + 1) * m) by (nonlinear_arith);
        assert((k + 1) * m <= (n - 1) * m) by (nonlinear_arith)
            requires
                k + 1 < n,
                m > 0,
        ;
    }
}

/// The batches of a settlement of `unsettled` transactions: none when there
/// are fewer than `min_tx_count`, else consecutive batches of
/// `max_batch_size` positions, the last one possibly shorter.
pub fn settlement_batches(unsettled: usize, min_tx_count: usize, max_batch_size: usize) -> (v: Vec<
    (usize, usize),
>)
    requires
        max_batch_size > 0,
    ensures
        unsettled < min_tx_count ==> v@.len() == 0,
        unsettled >= min_tx_count ==> v@.len() == batch_count(unsettled as nat, max_batch_size as nat),
        unsettled >= min_tx_count ==> forall|k: int|
            0 <= k < v@.len() ==> (#[trigger] v@[k]).0 == batch(k as nat, max_batch_size as nat, unsettled as nat).0
                && v@[k].1 == batch(k as nat, max_batch_size as nat, unsettled as nat).1,
{
    let mut v: Vec<(usize, usize)> = Vec::new();
    if unsettled < min_tx_count {
        return v;
    }
    let mut start: usize = 0;
    assert(0 * max_batch_size == 0) by (nonlinear_arith);
    while start < unsettled
        invariant
            max_batch_size > 0,
            start <= unsettled,
            start < unsettled ==> start == v@.len() * max_batch_size,
            start == unsettled ==> (v@.len() == 0 && unsettled == 0) || (v@.len() > 0 && (v@.len() - 1)
                * max_batch_size < unsettled <= v@.len() * max_batch_size),
            forall|k: int|
                0 <= k < v@.len() ==> (#[trigger] v@[k]).0 == batch(k as nat, max_batch_size as nat, unsettled as nat).0
                    && v@[k].1 == batch(k as nat, max_batch_size as nat, unsettled as nat).1,
        decreases unsettled - start,
    {
        let end = if unsettled - start > max_batch_size {
            start + max_batch_size
        } else {
            unsettled
        };
        proof {
            let k = v@.len();
            assert((k + 1) * max_batch_size == k * max_batch_size + max_batch_size) by (nonlinear_arith);
        }
        v.push((start, end));
        start = end;
    }
    proof {
        let n = v@.len();
        let m = max_batch_size as int;
        let t = unsettled as int;
        if n == 0 {
            assert(t == 0);
            assert(((t + m - 1) / m) == 0) by (nonlinear_arith)
                requires
                    t == 0,
                    m > 0,
            ;
        } else {
            assert(((t + m - 1) / m) == n) by (nonlinear_arith)
                requires
                    (n - 1) * m < t <= n * m,
                    m > 0,
                    n > 0,
            ;
        }
    }
    v
}

/// A transaction waiting to be settled: its id, amount and the instants
/// (microseconds since the epoch) at which it was created and last updated.
pub struct UnsettledTransaction {
    pub id: Uuid,
    pub amount: BigDecimal,
    pub created_at: i64,
    pub updated_at: i64,
}

/// One batch of a settlement: the transactions it settles, their total,
/// their number, and the period from the earliest creation to the latest
/// update among them.
pub struct SettlementBatch {
    pub tx_ids: Vec<Uuid>,
    pub total_amount: BigDecimal,
    pub tx_count: i32,
    pub period_start: i64,
    pub period_end: i64,
}

/// The sum of the amounts of `txs`, added from zero in order.
pub open spec fn amounts_total(txs: Seq<UnsettledTransaction>) -> BigDecimal
    decreases txs.len(),
{
    if txs.len() == 0 {
        decimal_of(0)
    } else {
        decimal_sum(amounts_total(txs.drop_last()), txs.last().amount)
    }
}

/// The earliest creation instant among `txs`, or `default` when there are
/// none.
pub open spec fn earliest_created(txs: Seq<UnsettledTransaction>, default: i64) -> i64
    decreases txs.len(),
{
    if txs.len() == 0 {
        default
    } else if txs.len() == 1 {
        txs[0].created_at
    } else {
        let e = earliest_created(txs.drop_last(), default);
        if txs.last().created_at < e { txs.last().created_at } else { e }
    }
}

/// The latest update instant among `txs`, or `default` when there are none.
pub open spec fn latest_updated(txs: Seq<UnsettledTransaction>, default: i64) -> i64
    decreases txs.len(),
{
    if txs.len() == 0 {
        default
    } else if txs.len() == 1 {
        txs[0].updated_at
    } else {
        let l = latest_updated(txs.drop_last(), default);
        if txs.last().updated_at > l { txs.last().updated_at } else { l }
    }
}

/// The transactions of the `k`-th batch of `txs` cut into batches of
/// `size`.
pub open spec fn batch_of(txs: Seq<UnsettledTransaction>, k: nat, size: nat) -> Seq<UnsettledTransaction> {
    txs.subrange(batch(k, size, txs.len()).0 as int, batch(k, size, txs.len()).1 as int)
}

/// Whether the `k`-th batch has a positive total.
pub open spec fn batch_positive(txs: Seq<UnsettledTransaction>, k: nat, size: nat) -> bool {
    decimal_is_positive(amounts_total(batch_of(txs, k, size)))
}

/// Whether `b` is the batch made of the transactions `c`.
pub open spec fn describes(b: SettlementBatch, c: Seq<UnsettledTransaction>, end_time: i64) -> bool {
    &&& b.tx_ids@ == c.map_values(|t: UnsettledTransaction| t.id)
    &&& b.total_amount == amounts_total(c)
    &&& b.tx_count == c.len() as i32
    &&& b.period_start == earliest_created(c, end_time)
    &&& b.period_end == latest_updated(c, end_time)
}

/// The detail of a refused settlement whose `k`-th batch (from zero) has
/// the non-positive total `total`.
pub open spec fn non_positive_detail(asset_code: Seq<char>, k: nat, total: BigDecimal) -> Seq<char> {
    "computed total for asset '"@ + asset_code + "' batch "@ + decimal(k + 1) + " is non-positive: "@
        + decimal_text(total)
}

/// The batch made of the transactions at positions `lo..hi` of `txs`.
fn summarize(txs: &Vec<UnsettledTransaction>, lo: usize, hi: usize, end_time: i64) -> (b: SettlementBatch)
    requires
        lo < hi <= txs@.len(),
    ensures
        describes(b, txs@.subrange(lo as int, hi as int), end_time),
{
    let mut ids: Vec<Uuid> = Vec::new();
    let mut total = decimal_from_i64(0);
    let mut start: i64 = txs[lo].created_at;
    let mut end: i64 = txs[lo].updated_at;
    let mut i: usize = lo;
    while i < hi
        invariant
            lo <= i <= hi <= txs@.len(),
            lo < hi,
            ids@ == txs@.subrange(lo as int, i as int).map_values(|t: UnsettledTransaction| t.id),
            total == amounts_total(txs@.subrange(lo as int, i as int)),
            i > lo ==> start == earliest_created(txs@.subrange(lo as int, i as int), end_time),
            i > lo ==> end == latest_updated(txs@.subrange(lo as int, i as int), end_time),
            i == lo ==> start == txs@[lo as int].created_at && end == txs@[lo as int].updated_at,
        decreases hi - i,
    {
        let ghost before = txs@.subrange(lo as int, i as int);
        let ghost after = txs@.subrange(lo as int, i + 1);
        assert(after.drop_last() =~= before);
        assert(after.last() == txs@[i as int]);
        let t = &txs[i];
        ids.push(t.id);
        total = add_decimals(&total, &t.amount);
        if i > lo {
            if t.created_at < start {
                start = t.created_at;
            }
            if t.updated_at > end {
                end = t.updated_at;
            }
        }
        i = i + 1;
        assert(ids@ =~= after.map_values(|t: UnsettledTransaction| t.id));
    }
    let tx_count = (hi - lo) as i32;
    SettlementBatch { tx_ids: ids, total_amount: total, tx_count, period_start: start, period_end: end }
}

/// The settlement of the unsettled transactions of `asset_code`, as the
/// batches to record: none when there are fewer than `min_tx_count`
/// transactions; else consecutive batches of at most `max_batch_size`
/// transactions, each with its total and period. A batch whose total is not
/// positive refuses the whole settlement, naming the first such batch.
pub fn plan_settlement(
    asset_code: &str,
    unsettled: &Vec<UnsettledTransaction>,
    min_tx_count: usize,
    max_batch_size: usize,
    end_time: i64,
) -> (r: Result<Vec<SettlementBatch>, AppError>)
    requires
        max_batch_size > 0,
    ensures
        unsettled@.len() < min_tx_count ==> (r matches Ok(v) && v@.len() == 0),
        unsettled@.len() >= min_tx_count && (forall|k: nat|
            k < batch_count(unsettled@.len(), max_batch_size as nat) ==> #[trigger] batch_positive(
                unsettled@,
                k,
                max_batch_size as nat,
            )) ==> (r matches Ok(v) && v@.len() == batch_count(unsettled@.len(), max_batch_size as nat)
            && forall|k: int|
            0 <= k < v@.len() ==> describes(
                #[trigger] v@[k],
                batch_of(unsettled@, k as nat, max_batch_size as nat),
                end_time,
            )),
        forall|k: nat|
            unsettled@.len() >= min_tx_count && k < batch_count(unsettled@.len(), max_batch_size as nat)
                && !#[trigger] batch_positive(unsettled@, k, max_batch_size as nat) && (forall|j: nat|
                j < k ==> batch_positive(unsettled@, j, max_batch_size as nat)) ==> (r matches Err(
                AppError::InvalidSettlementAmount(d),
            ) && d@ == non_positive_detail(
                asset_code@,
                k,
                amounts_total(batch_of(unsettled@, k, max_batch_size as nat)),
            )),
{
    let ranges = settlement_batches(unsettled.len(), min_tx_count, max_batch_size);
    let mut out: Vec<SettlementBatch> = Vec::new();
    let ghost n = unsettled@.len();
    let ghost size = max_batch_size as nat;
    let mut k: usize = 0;
    while k < ranges.len()
        invariant
            max_batch_size > 0,
            n == unsettled@.len(),
            size == max_batch_size as nat,
            k <= ranges@.len(),
            out@.len() == k,
            unsettled@.len() < min_tx_count ==> ranges@.len() == 0,
            unsettled@.len() >= min_tx_count ==> ranges@.len() == batch_count(n, size),
            unsettled@.len() >= min_tx_count ==> forall|j: int|
                0 <= j < ranges@.len() ==> (#[trigger] ranges@[j]).0 == batch(j as nat, size, n).0
                    && ranges@[j].1 == batch(j as nat, size, n).1,
            forall|j: nat| j < k ==> #[trigger] batch_positive(unsettled@, j, size),
            forall|j: int| 0 <= j < k ==> describes(#[trigger] out@[j], batch_of(unsettled@, j as nat, size), end_time),
        decreases ranges@.len() - k,
    {
        let (lo, hi) = ranges[k];
        proof {
            assert(ranges@[k as int].0 == batch(k as nat, size, n).0);
            assert(k * size < n) by (nonlinear_arith)
                requires
                    k < (n + size - 1) / size as int,
                    size > 0,
            ;
        }
        let b = summarize(unsettled, lo, hi, end_time);
        if !is_positive(&b.total_amount) {
            let head = concat("computed total for asset '", asset_code);
            let head = concat(head.as_str(), "' batch ");
            let num = decimal_string((k as u64) + 1);
            let head = concat(head.as_str(), num.as_str());
            let head = concat(head.as_str(), " is non-positive: ");
            let total_text = decimal_to_string(&b.total_amount);
            let detail = concat(head.as_str(), total_text.as_str());
            proof {
                assert(!batch_positive(unsettled@, k as nat, size));
            }
            return Err(AppError::InvalidSettlementAmount(detail));
        }
        out.push(b);
        k = k + 1;
    }
    Ok(out)
}

} // verus!
