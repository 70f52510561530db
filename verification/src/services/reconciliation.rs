//! Reconciliation of completed database transactions against on-chain
//! payments.
//!
//! Records are grouped by memo. Within a memo group, matching is greedy in
//! two phases: first pairs that agree on asset code and amount, then pairs
//! that agree on asset code alone (reported as amount mismatches). What is
//! left is missing on chain or orphaned when only one side has leftovers,
//! and ambiguous when both do. Memo-less records are paired by destination
//! account, amount and asset code. Every record ends up in exactly one
//! bucket of the report.
//!
//! Timestamps are microseconds since the Unix epoch (UTC).

use uuid::Uuid;
use vstd::prelude::*;

use crate::calendar::{parse_instant, parsed_instant};
use crate::clock::unix_time_micros;
use crate::text::{concat, decimal, decimal_string, str_eq};

verus! {

/// A completed transaction recorded in the database.
#[derive(Debug)]
pub struct DbTransaction {
    pub id: Uuid,
    pub stellar_account: String,
    pub amount: String,
    pub asset_code: String,
    pub memo: Option<String>,
    pub created_at: i64,
}

/// A payment observed on chain.
#[derive(Debug)]
pub struct ChainPayment {
    pub id: String,
    pub from: String,
    pub to: String,
    pub amount: String,
    pub asset_code: String,
    pub memo: Option<String>,
}

/// A database transaction with no chain counterpart.
#[derive(Debug)]
pub struct MissingTransaction {
    pub id: Uuid,
    pub stellar_account: String,
    pub amount: String,
    pub asset_code: String,
    pub memo: Option<String>,
    pub created_at: i64,
}

/// A chain payment with no database counterpart.
#[derive(Debug)]
pub struct OrphanedPayment {
    pub payment_id: String,
    pub from: String,
    pub to: String,
    pub amount: String,
    pub asset_code: String,
    pub memo: Option<String>,
}

/// A pair that shares memo and asset code but not the amount.
#[derive(Debug)]
pub struct AmountMismatch {
    pub transaction_id: Uuid,
    pub payment_id: String,
    pub db_amount: String,
    pub chain_amount: String,
    pub memo: Option<String>,
}

/// A database transaction left unresolved in a memo group where both sides
/// have leftovers.
#[derive(Debug)]
pub struct AmbiguousTransaction {
    pub id: Uuid,
    pub stellar_account: String,
    pub amount: String,
    pub asset_code: String,
    pub memo: Option<String>,
    pub created_at: i64,
    pub reason: String,
}

/// A chain payment left unresolved in a memo group where both sides have
/// leftovers.
#[derive(Debug)]
pub struct AmbiguousPayment {
    pub payment_id: String,
    pub from: String,
    pub to: String,
    pub amount: String,
    pub asset_code: String,
    pub memo: Option<String>,
    pub reason: String,
}

/// The outcome of reconciling one account over one period.
#[derive(Debug)]
pub struct ReconciliationReport {
    pub generated_at: i64,
    pub period_start: i64,
    pub period_end: i64,
    pub total_db_transactions: usize,
    pub total_chain_payments: usize,
    /// (Transaction, payment) pairs found on both sides, exact or with an
    /// amount mismatch.
    pub matched_count: usize,
    pub missing_on_chain: Vec<MissingTransaction>,
    pub orphaned_payments: Vec<OrphanedPayment>,
    pub amount_mismatches: Vec<AmountMismatch>,
    /// Transactions of memo groups where both sides have leftovers.
    pub ambiguous_db: Vec<AmbiguousTransaction>,
    /// Payments of memo groups where both sides have leftovers.
    pub ambiguous_chain: Vec<AmbiguousPayment>,
    /// Memo-less transactions with no chain counterpart.
    pub unmatched_no_memo_db: Vec<MissingTransaction>,
    /// Memo-less payments with no database counterpart.
    pub unmatched_no_memo_chain: Vec<OrphanedPayment>,
}

/// Microseconds in the window of the daily reconciliation (24 h).
pub const DAILY_WINDOW_MICROS: i64 = 86_400_000_000;

impl ReconciliationReport {
    /// Whether the report found anything to review: a record missing,
    /// orphaned, mismatched, ambiguous or unmatched.
    pub open spec fn discrepant(&self) -> bool {
        ||| self.missing_on_chain@.len() > 0
        ||| self.orphaned_payments@.len() > 0
        ||| self.amount_mismatches@.len() > 0
        ||| self.ambiguous_db@.len() > 0
        ||| self.ambiguous_chain@.len() > 0
        ||| self.unmatched_no_memo_db@.len() > 0
        ||| self.unmatched_no_memo_chain@.len() > 0
    }

    /// Whether the report found anything to review.
    pub fn has_discrepancies(&self) -> (r: bool)
        ensures
            r == self.discrepant(),
    {
        self.missing_on_chain.len() > 0 || self.orphaned_payments.len() > 0 || self.amount_mismatches.len()
            > 0 || self.ambiguous_db.len() > 0 || self.ambiguous_chain.len() > 0
            || self.unmatched_no_memo_db.len() > 0 || self.unmatched_no_memo_chain.len() > 0
    }
}

/// The window of the daily reconciliation that ends at `end`: the 24 hours
/// before it.
pub fn daily_window(end: i64) -> (w: (i64, i64))
    requires
        end >= i64::MIN + DAILY_WINDOW_MICROS,
    ensures
        w.0 == end - DAILY_WINDOW_MICROS,
        w.1 == end,
{
    (end - DAILY_WINDOW_MICROS, end)
}

/// The text of an optional string.
pub open spec fn opt_view(o: Option<String>) -> Option<Seq<char>> {
    match o {
        Some(s) => Some(s@),
        None => None,
    }
}

/// What makes a database transaction and a chain payment a pair.
#[derive(Debug, Clone, Copy, PartialEq, Eq, Structural)]
pub enum PairRule {
    /// Same asset code and amount.
    Exact,
    /// Same asset code.
    AssetOnly,
    /// Payment to the transaction's account, same amount and asset code.
    AccountAmountAsset,
}

/// `t` and `p` pair under `rule`.
pub open spec fn pairs_under(rule: PairRule, t: DbTransaction, p: ChainPayment) -> bool {
    match rule {
        PairRule::Exact => t.asset_code@ == p.asset_code@ && t.amount@ == p.amount@,
        PairRule::AssetOnly => t.asset_code@ == p.asset_code@,
        PairRule::AccountAmountAsset => p.to@ == t.stellar_account@ && p.amount@ == t.amount@
            && p.asset_code@ == t.asset_code@,
    }
}

/// The first position `j' >= j` of `cols` still available whose payment
/// pairs with `t`, or `cols.len()` when there is none.
pub open spec fn first_partner(
    chain: Seq<ChainPayment>,
    rule: PairRule,
    t: DbTransaction,
    cols: Seq<usize>,
    avail: Seq<bool>,
    j: int,
) -> int
    decreases cols.len() - j,
{
    if j >= cols.len() {
        cols.len() as int
    } else if avail[j] && pairs_under(rule, t, chain[cols[j] as int]) {
        j
    } else {
        first_partner(chain, rule, t, cols, avail, j + 1)
    }
}

/// State of a greedy pass: which positions are still available on each
/// side, and the (row, column) positions paired so far.
pub struct GreedyState {
    pub avail_r: Seq<bool>,
    pub avail_c: Seq<bool>,
    pub pairs: Seq<(usize, usize)>,
}

/// A greedy pass over the first `k` rows: each available row, in order,
/// takes the first available column it pairs with under `rule`.
pub open spec fn greedy(
    db: Seq<DbTransaction>,
    chain: Seq<ChainPayment>,
    rule: PairRule,
    rows: Seq<usize>,
    cols: Seq<usize>,
    s0: GreedyState,
    k: nat,
) -> GreedyState
    decreases k,
{
    if k == 0 {
        s0
    } else {
        let s = greedy(db, chain, rule, rows, cols, s0, (k - 1) as nat);
        let i = k - 1;
        if s.avail_r[i] {
            let j = first_partner(chain, rule, db[rows[i] as int], cols, s.avail_c, 0);
            if j < cols.len() {
                GreedyState {
                    avail_r: s.avail_r.update(i, false),
                    avail_c: s.avail_c.update(j, false),
                    pairs: s.pairs.push((i as usize, j as usize)),
                }
            } else {
                s
            }
        } else {
            s
        }
    }
}

/// Number of `true` among the first `k` entries of `s`.
pub open spec fn trues(s: Seq<bool>, k: int) -> nat
    decreases k,
{
    if k <= 0 {
        0
    } else if s[k - 1] {
        trues(s, k - 1) + 1
    } else {
        trues(s, k - 1)
    }
}

/// The entries of `items` among the first `k` whose flag in `avail` is set,
/// in order.
pub open spec fn kept(items: Seq<usize>, avail: Seq<bool>, k: int) -> Seq<usize>
    decreases k,
{
    if k <= 0 {
        Seq::empty()
    } else if avail[k - 1] {
        kept(items, avail, k - 1).push(items[k - 1])
    } else {
        kept(items, avail, k - 1)
    }
}

/// Every flag of a sequence of `n` set flags.
pub open spec fn all_set(n: nat) -> Seq<bool> {
    Seq::new(n, |i: int| true)
}

proof fn lemma_trues_bound(s: Seq<bool>, k: int)
    ensures
        k >= 0 ==> trues(s, k) <= k,
    decreases k,
{
    if k > 0 {
        lemma_trues_bound(s, k - 1);
    }
}

proof fn lemma_trues_all_set(n: nat, k: int)
    requires
        0 <= k <= n,
    ensures
        trues(all_set(n), k) == k,
    decreases k,
{
    if k > 0 {
        lemma_trues_all_set(n, k - 1);
    }
}

proof fn lemma_trues_clear(s: Seq<bool>, j: int, k: int)
    requires
        0 <= j < s.len(),
        s[j],
        k <= s.len(),
    ensures
        j < k ==> trues(s.update(j, false), k) + 1 == trues(s, k),
        j >= k ==> trues(s.update(j, false), k) == trues(s, k),
    decreases k,
{
    if k > 0 {
        lemma_trues_clear(s, j, k - 1);
    }
}

proof fn lemma_kept_len(items: Seq<usize>, avail: Seq<bool>, k: int)
    ensures
        kept(items, avail, k).len() == trues(avail, k),
    decreases k,
{
    if k > 0 {
        lemma_kept_len(items, avail, k - 1);
    }
}

proof fn lemma_first_partner(
    chain: Seq<ChainPayment>,
    rule: PairRule,
    t: DbTransaction,
    cols: Seq<usize>,
    avail: Seq<bool>,
    j: int,
)
    requires
        0 <= j,
    ensures
        j <= first_partner(chain, rule, t, cols, avail, j) <= cols.len() || (j > cols.len()
            && first_partner(chain, rule, t, cols, avail, j) == cols.len()),
        first_partner(chain, rule, t, cols, avail, j) < cols.len() ==> avail[first_partner(
            chain,
            rule,
            t,
            cols,
            avail,
            j,
        )] && pairs_under(rule, t, chain[cols[first_partner(chain, rule, t, cols, avail, j)] as int]),
    decreases cols.len() - j,
{
    if j < cols.len() {
        lemma_first_partner(chain, rule, t, cols, avail, j + 1);
    }
}

/// A greedy pass keeps the lengths of the flag sequences, and every pair it
/// makes clears one row flag and one column flag.
proof fn lemma_greedy_counts(
    db: Seq<DbTransaction>,
    chain: Seq<ChainPayment>,
    rule: PairRule,
    rows: Seq<usize>,
    cols: Seq<usize>,
    s0: GreedyState,
    k: nat,
)
    requires
        k <= rows.len(),
        s0.avail_r.len() == rows.len(),
        s0.avail_c.len() == cols.len(),
    ensures
        greedy(db, chain, rule, rows, cols, s0, k).avail_r.len() == rows.len(),
        greedy(db, chain, rule, rows, cols, s0, k).avail_c.len() == cols.len(),
        trues(greedy(db, chain, rule, rows, cols, s0, k).avail_r, rows.len() as int)
            + greedy(db, chain, rule, rows, cols, s0, k).pairs.len()
            == trues(s0.avail_r, rows.len() as int) + s0.pairs.len(),
        trues(greedy(db, chain, rule, rows, cols, s0, k).avail_c, cols.len() as int)
            + greedy(db, chain, rule, rows, cols, s0, k).pairs.len()
            == trues(s0.avail_c, cols.len() as int) + s0.pairs.len(),
        (forall|m: int| 0 <= m < s0.pairs.len() ==> s0.pairs[m].0 < rows.len() && s0.pairs[m].1 < cols.len())
            ==> (forall|m: int|
            0 <= m < greedy(db, chain, rule, rows, cols, s0, k).pairs.len() ==> (#[trigger] greedy(
                db,
                chain,
                rule,
                rows,
                cols,
                s0,
                k,
            ).pairs[m]).0 < rows.len() && greedy(db, chain, rule, rows, cols, s0, k).pairs[m].1 < cols.len()),
    decreases k,
{
    if k > 0 {
        lemma_greedy_counts(db, chain, rule, rows, cols, s0, (k - 1) as nat);
        let s = greedy(db, chain, rule, rows, cols, s0, (k - 1) as nat);
        let i = k - 1;
        if s.avail_r[i] {
            let j = first_partner(chain, rule, db[rows[i] as int], cols, s.avail_c, 0);
            lemma_first_partner(chain, rule, db[rows[i] as int], cols, s.avail_c, 0);
            if j < cols.len() {
                lemma_trues_clear(s.avail_r, i as int, rows.len() as int);
                lemma_trues_clear(s.avail_c, j, cols.len() as int);
            }
        }
    }
}

fn pairs_exec(rule: PairRule, t: &DbTransaction, p: &ChainPayment) -> (r: bool)
    ensures
        r == pairs_under(rule, *t, *p),
{
    match rule {
        PairRule::Exact => str_eq(t.asset_code.as_str(), p.asset_code.as_str()) && str_eq(
            t.amount.as_str(),
            p.amount.as_str(),
        ),
        PairRule::AssetOnly => str_eq(t.asset_code.as_str(), p.asset_code.as_str()),
        PairRule::AccountAmountAsset => str_eq(p.to.as_str(), t.stellar_account.as_str()) && str_eq(
            p.amount.as_str(),
            t.amount.as_str(),
        ) && str_eq(p.asset_code.as_str(), t.asset_code.as_str()),
    }
}

fn find_partner(
    rule: PairRule,
    t: &DbTransaction,
    cols: &[usize],
    avail: &Vec<bool>,
    chain: &[ChainPayment],
) -> (j: usize)
    requires
        avail.len() == cols.len(),
        forall|k: int| 0 <= k < cols.len() ==> cols[k] < chain.len(),
    ensures
        j == first_partner(chain@, rule, *t, cols@, avail@, 0),
{
    let mut j: usize = 0;
    while j < cols.len()
        invariant
            j <= cols.len(),
            avail.len() == cols.len(),
            forall|k: int| 0 <= k < cols.len() ==> cols[k] < chain.len(),
            first_partner(chain@, rule, *t, cols@, avail@, 0) == first_partner(
                chain@,
                rule,
                *t,
                cols@,
                avail@,
                j as int,
            ),
        decreases cols.len() - j,
    {
        if avail[j] && pairs_exec(rule, t, &chain[cols[j]]) {
            return j;
        }
        j = j + 1;
    }
    j
}

/// Runs one greedy pass over all rows (see [`greedy`]), clearing the flags
/// of what it pairs; returns the (row, column) positions paired.
fn greedy_phase(
    rule: PairRule,
    rows: &[usize],
    cols: &[usize],
    db: &[DbTransaction],
    chain: &[ChainPayment],
    avail_db: &mut Vec<bool>,
    avail_chain: &mut Vec<bool>,
) -> (pairs: Vec<(usize, usize)>)
    requires
        old(avail_db).len() == rows.len(),
        old(avail_chain).len() == cols.len(),
        forall|k: int| 0 <= k < rows.len() ==> rows[k] < db.len(),
        forall|k: int| 0 <= k < cols.len() ==> cols[k] < chain.len(),
    ensures
        (GreedyState { avail_r: final(avail_db)@, avail_c: final(avail_chain)@, pairs: pairs@ })
            == greedy(
            db@,
            chain@,
            rule,
            rows@,
            cols@,
            GreedyState { avail_r: old(avail_db)@, avail_c: old(avail_chain)@, pairs: Seq::empty() },
            rows.len() as nat,
        ),
{
    let ghost s0 = GreedyState { avail_r: avail_db@, avail_c: avail_chain@, pairs: Seq::empty() };
    let mut pairs: Vec<(usize, usize)> = Vec::new();
    let mut i: usize = 0;
    while i < rows.len()
        invariant
            i <= rows.len(),
            avail_db.len() == rows.len(),
            avail_chain.len() == cols.len(),
            forall|k: int| 0 <= k < rows.len() ==> rows[k] < db.len(),
            forall|k: int| 0 <= k < cols.len() ==> cols[k] < chain.len(),
            (GreedyState { avail_r: avail_db@, avail_c: avail_chain@, pairs: pairs@ }) == greedy(
                db@,
                chain@,
                rule,
                rows@,
                cols@,
                s0,
                i as nat,
            ),
        decreases rows.len() - i,
    {
        if avail_db[i] {
            let j = find_partner(rule, &db[rows[i]], cols, avail_chain, chain);
            proof {
                lemma_first_partner(chain@, rule, db@[rows@[i as int] as int], cols@, avail_chain@, 0);
            }
            if j < cols.len() {
                avail_db.set(i, false);
                avail_chain.set(j, false);
                pairs.push((i, j));
            }
        }
        i = i + 1;
    }
    pairs
}


/// What matching one group yields, with positions resolved to record
/// indices.
pub struct GroupOutcome {
    /// Pairs made (exact and asset-only).
    pub matched: nat,
    /// Asset-only pairs, as (database index, chain index).
    pub mismatches: Seq<(usize, usize)>,
    /// Database indices left unpaired, in order.
    pub rem_db: Seq<usize>,
    /// Chain indices left unpaired, in order.
    pub rem_chain: Seq<usize>,
}

/// Positions (row, column) resolved to (database index, chain index).
pub open spec fn resolve_pairs(pairs: Seq<(usize, usize)>, rows: Seq<usize>, cols: Seq<usize>) -> Seq<(usize, usize)> {
    pairs.map_values(|pr: (usize, usize)| (rows[pr.0 as int], cols[pr.1 as int]))
}

/// Pairs tagged with the memo of their group.
pub open spec fn tag_memo(ps: Seq<(usize, usize)>, memo: Seq<char>) -> Seq<(usize, usize, Seq<char>)> {
    ps.map_values(|p: (usize, usize)| (p.0, p.1, memo))
}

/// Indices tagged with a reason.
pub open spec fn tag_reason(idx: Seq<usize>, reason: Seq<char>) -> Seq<(usize, Seq<char>)> {
    idx.map_values(|d: usize| (d, reason))
}

/// The exact-match pass of a memo group, over fresh flags.
pub open spec fn exact_pass(
    db: Seq<DbTransaction>,
    chain: Seq<ChainPayment>,
    rows: Seq<usize>,
    cols: Seq<usize>,
) -> GreedyState {
    greedy(
        db,
        chain,
        PairRule::Exact,
        rows,
        cols,
        GreedyState { avail_r: all_set(rows.len()), avail_c: all_set(cols.len()), pairs: Seq::empty() },
        rows.len(),
    )
}

/// The asset-only pass of a memo group, over what the exact pass left.
pub open spec fn asset_pass(
    db: Seq<DbTransaction>,
    chain: Seq<ChainPayment>,
    rows: Seq<usize>,
    cols: Seq<usize>,
) -> GreedyState {
    let p1 = exact_pass(db, chain, rows, cols);
    greedy(
        db,
        chain,
        PairRule::AssetOnly,
        rows,
        cols,
        GreedyState { avail_r: p1.avail_r, avail_c: p1.avail_c, pairs: Seq::empty() },
        rows.len(),
    )
}

/// The outcome of a memo group whose database rows are `rows` and whose
/// chain payments are `cols`.
pub open spec fn memo_group_outcome(
    db: Seq<DbTransaction>,
    chain: Seq<ChainPayment>,
    rows: Seq<usize>,
    cols: Seq<usize>,
) -> GroupOutcome {
    let p1 = exact_pass(db, chain, rows, cols);
    let p2 = asset_pass(db, chain, rows, cols);
    GroupOutcome {
        matched: p1.pairs.len() + p2.pairs.len(),
        mismatches: resolve_pairs(p2.pairs, rows, cols),
        rem_db: kept(rows, p2.avail_r, rows.len() as int),
        rem_chain: kept(cols, p2.avail_c, cols.len() as int),
    }
}

/// The memo-less pass, pairing by account, amount and asset code.
pub open spec fn no_memo_pass(
    db: Seq<DbTransaction>,
    chain: Seq<ChainPayment>,
    rows: Seq<usize>,
    cols: Seq<usize>,
) -> GreedyState {
    greedy(
        db,
        chain,
        PairRule::AccountAmountAsset,
        rows,
        cols,
        GreedyState { avail_r: all_set(rows.len()), avail_c: all_set(cols.len()), pairs: Seq::empty() },
        rows.len(),
    )
}

/// The report's buckets, by record index.
pub struct AccView {
    pub matched: nat,
    pub missing: Seq<usize>,
    pub orphaned: Seq<usize>,
    /// (database index, chain index, memo).
    pub mismatches: Seq<(usize, usize, Seq<char>)>,
    /// (database index, reason).
    pub amb_db: Seq<(usize, Seq<char>)>,
    /// (chain index, reason).
    pub amb_chain: Seq<(usize, Seq<char>)>,
    pub nm_db: Seq<usize>,
    pub nm_chain: Seq<usize>,
}

/// Nothing matched or reported yet.
pub open spec fn empty_acc() -> AccView {
    AccView {
        matched: 0,
        missing: Seq::empty(),
        orphaned: Seq::empty(),
        mismatches: Seq::empty(),
        amb_db: Seq::empty(),
        amb_chain: Seq::empty(),
        nm_db: Seq::empty(),
        nm_chain: Seq::empty(),
    }
}

/// Why a memo group is ambiguous.
pub open spec fn ambiguity_reason(memo: Seq<char>, n_db: nat, n_chain: nat) -> Seq<char> {
    "memo '"@ + memo + "': "@ + decimal(n_db) + " DB row(s) and "@ + decimal(n_chain)
        + " chain payment(s) unresolved after exact and asset-only matching"@
}

/// The buckets after a memo group with outcome `o` is added: leftovers on
/// both sides are ambiguous; leftovers on one side are missing on chain or
/// orphaned.
pub open spec fn add_group(v: AccView, memo: Seq<char>, o: GroupOutcome) -> AccView {
    let mm = v.mismatches + tag_memo(o.mismatches, memo);
    if o.rem_db.len() > 0 && o.rem_chain.len() > 0 {
        let reason = ambiguity_reason(memo, o.rem_db.len(), o.rem_chain.len());
        AccView {
            matched: v.matched + o.matched,
            mismatches: mm,
            amb_db: v.amb_db + tag_reason(o.rem_db, reason),
            amb_chain: v.amb_chain + tag_reason(o.rem_chain, reason),
            ..v
        }
    } else {
        AccView {
            matched: v.matched + o.matched,
            mismatches: mm,
            missing: v.missing + o.rem_db,
            orphaned: v.orphaned + o.rem_chain,
            ..v
        }
    }
}

/// The buckets after the memo-less records `rows` and `cols` are matched.
pub open spec fn add_no_memo(
    v: AccView,
    db: Seq<DbTransaction>,
    chain: Seq<ChainPayment>,
    rows: Seq<usize>,
    cols: Seq<usize>,
) -> AccView {
    let s = no_memo_pass(db, chain, rows, cols);
    AccView {
        matched: v.matched + s.pairs.len(),
        nm_db: v.nm_db + kept(rows, s.avail_r, rows.len() as int),
        nm_chain: v.nm_chain + kept(cols, s.avail_c, cols.len() as int),
        ..v
    }
}

/// `m` reports the database transaction `t`.
pub open spec fn missing_of(m: MissingTransaction, t: DbTransaction) -> bool {
    &&& m.id == t.id
    &&& m.stellar_account@ == t.stellar_account@
    &&& m.amount@ == t.amount@
    &&& m.asset_code@ == t.asset_code@
    &&& opt_view(m.memo) == opt_view(t.memo)
    &&& m.created_at == t.created_at
}

/// `o` reports the chain payment `p`.
pub open spec fn orphan_of(o: OrphanedPayment, p: ChainPayment) -> bool {
    &&& o.payment_id@ == p.id@
    &&& o.from@ == p.from@
    &&& o.to@ == p.to@
    &&& o.amount@ == p.amount@
    &&& o.asset_code@ == p.asset_code@
    &&& opt_view(o.memo) == opt_view(p.memo)
}

/// `a` reports the pair `t`, `p` of memo `memo`.
pub open spec fn mismatch_of(a: AmountMismatch, t: DbTransaction, p: ChainPayment, memo: Seq<char>) -> bool {
    &&& a.transaction_id == t.id
    &&& a.payment_id@ == p.id@
    &&& a.db_amount@ == t.amount@
    &&& a.chain_amount@ == p.amount@
    &&& opt_view(a.memo) == Some(memo)
}

/// `a` reports the database transaction `t` with `reason`.
pub open spec fn amb_tx_of(a: AmbiguousTransaction, t: DbTransaction, reason: Seq<char>) -> bool {
    &&& a.id == t.id
    &&& a.stellar_account@ == t.stellar_account@
    &&& a.amount@ == t.amount@
    &&& a.asset_code@ == t.asset_code@
    &&& opt_view(a.memo) == opt_view(t.memo)
    &&& a.created_at == t.created_at
    &&& a.reason@ == reason
}

/// `a` reports the chain payment `p` with `reason`.
pub open spec fn amb_pay_of(a: AmbiguousPayment, p: ChainPayment, reason: Seq<char>) -> bool {
    &&& a.payment_id@ == p.id@
    &&& a.from@ == p.from@
    &&& a.to@ == p.to@
    &&& a.amount@ == p.amount@
    &&& a.asset_code@ == p.asset_code@
    &&& opt_view(a.memo) == opt_view(p.memo)
    &&& a.reason@ == reason
}

/// `l` reports the database transactions at `idx`, in order.
pub open spec fn missing_list(l: Seq<MissingTransaction>, db: Seq<DbTransaction>, idx: Seq<usize>) -> bool {
    &&& l.len() == idx.len()
    &&& forall|k: int| 0 <= k < idx.len() ==> #[trigger] idx[k] < db.len()
    &&& forall|k: int| 0 <= k < l.len() ==> #[trigger] missing_of(l[k], db[idx[k] as int])
}

/// `l` reports the chain payments at `idx`, in order.
pub open spec fn orphan_list(l: Seq<OrphanedPayment>, chain: Seq<ChainPayment>, idx: Seq<usize>) -> bool {
    &&& l.len() == idx.len()
    &&& forall|k: int| 0 <= k < idx.len() ==> #[trigger] idx[k] < chain.len()
    &&& forall|k: int| 0 <= k < l.len() ==> #[trigger] orphan_of(l[k], chain[idx[k] as int])
}

/// `l` reports the pairs `idx`, in order.
pub open spec fn mismatch_list(
    l: Seq<AmountMismatch>,
    db: Seq<DbTransaction>,
    chain: Seq<ChainPayment>,
    idx: Seq<(usize, usize, Seq<char>)>,
) -> bool {
    &&& l.len() == idx.len()
    &&& forall|k: int| 0 <= k < idx.len() ==> (#[trigger] idx[k]).0 < db.len() && idx[k].1 < chain.len()
    &&& forall|k: int|
        0 <= k < l.len() ==> #[trigger] mismatch_of(
            l[k],
            db[idx[k].0 as int],
            chain[idx[k].1 as int],
            idx[k].2,
        )
}

/// `l` reports the database transactions and reasons `idx`, in order.
pub open spec fn amb_tx_list(l: Seq<AmbiguousTransaction>, db: Seq<DbTransaction>, idx: Seq<(usize, Seq<char>)>) -> bool {
    &&& l.len() == idx.len()
    &&& forall|k: int| 0 <= k < idx.len() ==> (#[trigger] idx[k]).0 < db.len()
    &&& forall|k: int| 0 <= k < l.len() ==> #[trigger] amb_tx_of(l[k], db[idx[k].0 as int], idx[k].1)
}

/// `l` reports the chain payments and reasons `idx`, in order.
pub open spec fn amb_pay_list(l: Seq<AmbiguousPayment>, chain: Seq<ChainPayment>, idx: Seq<(usize, Seq<char>)>) -> bool {
    &&& l.len() == idx.len()
    &&& forall|k: int| 0 <= k < idx.len() ==> (#[trigger] idx[k]).0 < chain.len()
    &&& forall|k: int| 0 <= k < l.len() ==> #[trigger] amb_pay_of(l[k], chain[idx[k].0 as int], idx[k].1)
}

/// The buckets of a report being assembled, with their index model.
struct MatchAccumulator {
    matched_count: usize,
    missing_on_chain: Vec<MissingTransaction>,
    orphaned_payments: Vec<OrphanedPayment>,
    amount_mismatches: Vec<AmountMismatch>,
    ambiguous_db: Vec<AmbiguousTransaction>,
    ambiguous_chain: Vec<AmbiguousPayment>,
    unmatched_no_memo_db: Vec<MissingTransaction>,
    unmatched_no_memo_chain: Vec<OrphanedPayment>,
    model: Ghost<AccView>,
}

impl MatchAccumulator {
    /// Every bucket reports exactly the records its model names.
    spec fn wf(&self, db: Seq<DbTransaction>, chain: Seq<ChainPayment>) -> bool {
        &&& self.matched_count == self.model@.matched
        &&& missing_list(self.missing_on_chain@, db, self.model@.missing)
        &&& orphan_list(self.orphaned_payments@, chain, self.model@.orphaned)
        &&& mismatch_list(self.amount_mismatches@, db, chain, self.model@.mismatches)
        &&& amb_tx_list(self.ambiguous_db@, db, self.model@.amb_db)
        &&& amb_pay_list(self.ambiguous_chain@, chain, self.model@.amb_chain)
        &&& missing_list(self.unmatched_no_memo_db@, db, self.model@.nm_db)
        &&& orphan_list(self.unmatched_no_memo_chain@, chain, self.model@.nm_chain)
    }

    fn new() -> (a: Self)
        ensures
            a.model@ == empty_acc(),
            forall|db: Seq<DbTransaction>, chain: Seq<ChainPayment>| a.wf(db, chain),
    {
        MatchAccumulator {
            matched_count: 0,
            missing_on_chain: Vec::new(),
            orphaned_payments: Vec::new(),
            amount_mismatches: Vec::new(),
            ambiguous_db: Vec::new(),
            ambiguous_chain: Vec::new(),
            unmatched_no_memo_db: Vec::new(),
            unmatched_no_memo_chain: Vec::new(),
            model: Ghost(empty_acc()),
        }
    }
}

fn clone_opt(o: &Option<String>) -> (r: Option<String>)
    ensures
        opt_view(r) == opt_view(*o),
{
    match o {
        Some(s) => Some(s.clone()),
        None => None,
    }
}

fn missing_entry(t: &DbTransaction) -> (m: MissingTransaction)
    ensures
        missing_of(m, *t),
{
    MissingTransaction {
        id: t.id,
        stellar_account: t.stellar_account.clone(),
        amount: t.amount.clone(),
        asset_code: t.asset_code.clone(),
        memo: clone_opt(&t.memo),
        created_at: t.created_at,
    }
}

fn orphan_entry(p: &ChainPayment) -> (o: OrphanedPayment)
    ensures
        orphan_of(o, *p),
{
    OrphanedPayment {
        payment_id: p.id.clone(),
        from: p.from.clone(),
        to: p.to.clone(),
        amount: p.amount.clone(),
        asset_code: p.asset_code.clone(),
        memo: clone_opt(&p.memo),
    }
}

fn mismatch_entry(t: &DbTransaction, p: &ChainPayment, memo: &str) -> (a: AmountMismatch)
    ensures
        mismatch_of(a, *t, *p, memo@),
{
    AmountMismatch {
        transaction_id: t.id,
        payment_id: p.id.clone(),
        db_amount: t.amount.clone(),
        chain_amount: p.amount.clone(),
        memo: Some(memo.to_string()),
    }
}

fn amb_tx_entry(t: &DbTransaction, reason: &String) -> (a: AmbiguousTransaction)
    ensures
        amb_tx_of(a, *t, reason@),
{
    AmbiguousTransaction {
        id: t.id,
        stellar_account: t.stellar_account.clone(),
        amount: t.amount.clone(),
        asset_code: t.asset_code.clone(),
        memo: clone_opt(&t.memo),
        created_at: t.created_at,
        reason: reason.clone(),
    }
}

fn amb_pay_entry(p: &ChainPayment, reason: &String) -> (a: AmbiguousPayment)
    ensures
        amb_pay_of(a, *p, reason@),
{
    AmbiguousPayment {
        payment_id: p.id.clone(),
        from: p.from.clone(),
        to: p.to.clone(),
        amount: p.amount.clone(),
        asset_code: p.asset_code.clone(),
        memo: clone_opt(&p.memo),
        reason: reason.clone(),
    }
}

/// The entries of `items` whose flag is set, in order.
fn kept_exec(items: &[usize], avail: &Vec<bool>) -> (r: Vec<usize>)
    requires
        avail.len() == items.len(),
    ensures
        r@ == kept(items@, avail@, items.len() as int),
{
    let mut r: Vec<usize> = Vec::new();
    let mut i: usize = 0;
    while i < items.len()
        invariant
            i <= items.len(),
            avail.len() == items.len(),
            r@ == kept(items@, avail@, i as int),
        decreases items.len() - i,
    {
        if avail[i] {
            r.push(items[i]);
        }
        i = i + 1;
    }
    r
}

fn all_set_vec(n: usize) -> (v: Vec<bool>)
    ensures
        v@ == all_set(n as nat),
{
    let mut v: Vec<bool> = Vec::new();
    let mut i: usize = 0;
    while i < n
        invariant
            i <= n,
            v@ == all_set(i as nat),
        decreases n - i,
    {
        v.push(true);
        proof {
            assert(v@ =~= all_set((i + 1) as nat));
        }
        i = i + 1;
    }
    v
}


proof fn lemma_kept_bound(items: Seq<usize>, avail: Seq<bool>, k: int, bound: int)
    requires
        k <= items.len(),
        forall|m: int| 0 <= m < items.len() ==> items[m] < bound,
    ensures
        forall|m: int| 0 <= m < kept(items, avail, k).len() ==> #[trigger] kept(items, avail, k)[m] < bound,
    decreases k,
{
    if k > 0 {
        lemma_kept_bound(items, avail, k - 1, bound);
        let prev = kept(items, avail, k - 1);
        assert forall|m: int| 0 <= m < kept(items, avail, k).len() implies #[trigger] kept(items, avail, k)[m] < bound by {
            if m < prev.len() {
                assert(kept(items, avail, k)[m] == prev[m]);
            } else {
                assert(kept(items, avail, k)[m] == items[k - 1]);
            }
        }
    }
}

proof fn lemma_missing_list_append(
    l1: Seq<MissingTransaction>,
    i1: Seq<usize>,
    l2: Seq<MissingTransaction>,
    i2: Seq<usize>,
    db: Seq<DbTransaction>,
)
    requires
        missing_list(l1, db, i1),
        missing_list(l2, db, i2),
    ensures
        missing_list(l1 + l2, db, i1 + i2),
{
    assert forall|k: int| 0 <= k < (l1 + l2).len() implies #[trigger] missing_of(
        (l1 + l2)[k],
        db[(i1 + i2)[k] as int],
    ) by {
        if k >= l1.len() {
            assert((l1 + l2)[k] == l2[k - l1.len()] && (i1 + i2)[k] == i2[k - l1.len()]);
            assert(missing_of(l2[k - l1.len()], db[i2[k - l1.len()] as int]));
        } else {
            assert((l1 + l2)[k] == l1[k] && (i1 + i2)[k] == i1[k]);
            assert(missing_of(l1[k], db[i1[k] as int]));
        }
    }
}

proof fn lemma_orphan_list_append(
    l1: Seq<OrphanedPayment>,
    i1: Seq<usize>,
    l2: Seq<OrphanedPayment>,
    i2: Seq<usize>,
    chain: Seq<ChainPayment>,
)
    requires
        orphan_list(l1, chain, i1),
        orphan_list(l2, chain, i2),
    ensures
        orphan_list(l1 + l2, chain, i1 + i2),
{
    assert forall|k: int| 0 <= k < (l1 + l2).len() implies #[trigger] orphan_of(
        (l1 + l2)[k],
        chain[(i1 + i2)[k] as int],
    ) by {
        if k >= l1.len() {
            assert((l1 + l2)[k] == l2[k - l1.len()] && (i1 + i2)[k] == i2[k - l1.len()]);
            assert(orphan_of(l2[k - l1.len()], chain[i2[k - l1.len()] as int]));
        } else {
            assert((l1 + l2)[k] == l1[k] && (i1 + i2)[k] == i1[k]);
            assert(orphan_of(l1[k], chain[i1[k] as int]));
        }
    }
}

proof fn lemma_mismatch_list_append(
    l1: Seq<AmountMismatch>,
    i1: Seq<(usize, usize, Seq<char>)>,
    l2: Seq<AmountMismatch>,
    i2: Seq<(usize, usize, Seq<char>)>,
    db: Seq<DbTransaction>,
    chain: Seq<ChainPayment>,
)
    requires
        mismatch_list(l1, db, chain, i1),
        mismatch_list(l2, db, chain, i2),
    ensures
        mismatch_list(l1 + l2, db, chain, i1 + i2),
{
    assert forall|k: int| 0 <= k < (l1 + l2).len() implies #[trigger] mismatch_of(
        (l1 + l2)[k],
        db[(i1 + i2)[k].0 as int],
        chain[(i1 + i2)[k].1 as int],
        (i1 + i2)[k].2,
    ) by {
        if k >= l1.len() {
            let k2 = k - l1.len();
            assert((l1 + l2)[k] == l2[k2] && (i1 + i2)[k] == i2[k2]);
            assert(mismatch_of(l2[k2], db[i2[k2].0 as int], chain[i2[k2].1 as int], i2[k2].2));
        } else {
            assert((l1 + l2)[k] == l1[k] && (i1 + i2)[k] == i1[k]);
            assert(mismatch_of(l1[k], db[i1[k].0 as int], chain[i1[k].1 as int], i1[k].2));
        }
    }
}

proof fn lemma_amb_tx_list_append(
    l1: Seq<AmbiguousTransaction>,
    i1: Seq<(usize, Seq<char>)>,
    l2: Seq<AmbiguousTransaction>,
    i2: Seq<(usize, Seq<char>)>,
    db: Seq<DbTransaction>,
)
    requires
        amb_tx_list(l1, db, i1),
        amb_tx_list(l2, db, i2),
    ensures
        amb_tx_list(l1 + l2, db, i1 + i2),
{
    assert forall|k: int| 0 <= k < (l1 + l2).len() implies #[trigger] amb_tx_of(
        (l1 + l2)[k],
        db[(i1 + i2)[k].0 as int],
        (i1 + i2)[k].1,
    ) by {
        if k >= l1.len() {
            let k2 = k - l1.len();
            assert((l1 + l2)[k] == l2[k2] && (i1 + i2)[k] == i2[k2]);
            assert(amb_tx_of(l2[k2], db[i2[k2].0 as int], i2[k2].1));
        } else {
            assert((l1 + l2)[k] == l1[k] && (i1 + i2)[k] == i1[k]);
            assert(amb_tx_of(l1[k], db[i1[k].0 as int], i1[k].1));
        }
    }
}

proof fn lemma_amb_pay_list_append(
    l1: Seq<AmbiguousPayment>,
    i1: Seq<(usize, Seq<char>)>,
    l2: Seq<AmbiguousPayment>,
    i2: Seq<(usize, Seq<char>)>,
    chain: Seq<ChainPayment>,
)
    requires
        amb_pay_list(l1, chain, i1),
        amb_pay_list(l2, chain, i2),
    ensures
        amb_pay_list(l1 + l2, chain, i1 + i2),
{
    assert forall|k: int| 0 <= k < (l1 + l2).len() implies #[trigger] amb_pay_of(
        (l1 + l2)[k],
        chain[(i1 + i2)[k].0 as int],
        (i1 + i2)[k].1,
    ) by {
        if k >= l1.len() {
            let k2 = k - l1.len();
            assert((l1 + l2)[k] == l2[k2] && (i1 + i2)[k] == i2[k2]);
            assert(amb_pay_of(l2[k2], chain[i2[k2].0 as int], i2[k2].1));
        } else {
            assert((l1 + l2)[k] == l1[k] && (i1 + i2)[k] == i1[k]);
            assert(amb_pay_of(l1[k], chain[i1[k].0 as int], i1[k].1));
        }
    }
}

fn missing_entries(idx: &Vec<usize>, db: &[DbTransaction]) -> (l: Vec<MissingTransaction>)
    requires
        forall|m: int| 0 <= m < idx.len() ==> idx[m] < db.len(),
    ensures
        missing_list(l@, db@, idx@),
{
    let mut l: Vec<MissingTransaction> = Vec::new();
    let mut k: usize = 0;
    while k < idx.len()
        invariant
            k <= idx.len(),
            forall|m: int| 0 <= m < idx.len() ==> idx[m] < db.len(),
            missing_list(l@, db@, idx@.take(k as int)),
        decreases idx.len() - k,
    {
        let e = missing_entry(&db[idx[k]]);
        l.push(e);
        proof {
            assert forall|m: int| 0 <= m < l@.len() implies #[trigger] missing_of(
                l@[m],
                db@[idx@.take(k + 1)[m] as int],
            ) by {
                if m < k {
                    assert(missing_of(l@[m], db@[idx@.take(k as int)[m] as int]));
                }
            }
        }
        k = k + 1;
    }
    proof {
        assert(idx@.take(k as int) =~= idx@);
    }
    l
}

fn orphan_entries(idx: &Vec<usize>, chain: &[ChainPayment]) -> (l: Vec<OrphanedPayment>)
    requires
        forall|m: int| 0 <= m < idx.len() ==> idx[m] < chain.len(),
    ensures
        orphan_list(l@, chain@, idx@),
{
    let mut l: Vec<OrphanedPayment> = Vec::new();
    let mut k: usize = 0;
    while k < idx.len()
        invariant
            k <= idx.len(),
            forall|m: int| 0 <= m < idx.len() ==> idx[m] < chain.len(),
            orphan_list(l@, chain@, idx@.take(k as int)),
        decreases idx.len() - k,
    {
        let e = orphan_entry(&chain[idx[k]]);
        l.push(e);
        proof {
            assert forall|m: int| 0 <= m < l@.len() implies #[trigger] orphan_of(
                l@[m],
                chain@[idx@.take(k + 1)[m] as int],
            ) by {
                if m < k {
                    assert(orphan_of(l@[m], chain@[idx@.take(k as int)[m] as int]));
                }
            }
        }
        k = k + 1;
    }
    proof {
        assert(idx@.take(k as int) =~= idx@);
    }
    l
}


fn amb_tx_entries(idx: &Vec<usize>, db: &[DbTransaction], reason: &String) -> (l: Vec<AmbiguousTransaction>)
    requires
        forall|m: int| 0 <= m < idx.len() ==> idx[m] < db.len(),
    ensures
        amb_tx_list(l@, db@, tag_reason(idx@, reason@)),
{
    let mut l: Vec<AmbiguousTransaction> = Vec::new();
    let mut k: usize = 0;
    while k < idx.len()
        invariant
            k <= idx.len(),
            forall|m: int| 0 <= m < idx.len() ==> idx[m] < db.len(),
            l@.len() == k,
            forall|m: int| 0 <= m < k ==> #[trigger] amb_tx_of(l@[m], db@[idx@[m] as int], reason@),
        decreases idx.len() - k,
    {
        let e = amb_tx_entry(&db[idx[k]], reason);
        l.push(e);
        proof {
            assert forall|m: int| 0 <= m < k + 1 implies #[trigger] amb_tx_of(l@[m], db@[idx@[m] as int], reason@) by {
                if m < k {
                    assert(amb_tx_of(l@[m], db@[idx@[m] as int], reason@));
                }
            }
        }
        k = k + 1;
    }
    proof {
        let t = tag_reason(idx@, reason@);
        assert forall|m: int| 0 <= m < l@.len() implies #[trigger] amb_tx_of(l@[m], db@[t[m].0 as int], t[m].1) by {
            assert(amb_tx_of(l@[m], db@[idx@[m] as int], reason@));
        }
    }
    l
}

fn amb_pay_entries(idx: &Vec<usize>, chain: &[ChainPayment], reason: &String) -> (l: Vec<AmbiguousPayment>)
    requires
        forall|m: int| 0 <= m < idx.len() ==> idx[m] < chain.len(),
    ensures
        amb_pay_list(l@, chain@, tag_reason(idx@, reason@)),
{
    let mut l: Vec<AmbiguousPayment> = Vec::new();
    let mut k: usize = 0;
    while k < idx.len()
        invariant
            k <= idx.len(),
            forall|m: int| 0 <= m < idx.len() ==> idx[m] < chain.len(),
            l@.len() == k,
            forall|m: int| 0 <= m < k ==> #[trigger] amb_pay_of(l@[m], chain@[idx@[m] as int], reason@),
        decreases idx.len() - k,
    {
        let e = amb_pay_entry(&chain[idx[k]], reason);
        l.push(e);
        proof {
            assert forall|m: int| 0 <= m < k + 1 implies #[trigger] amb_pay_of(l@[m], chain@[idx@[m] as int], reason@) by {
                if m < k {
                    assert(amb_pay_of(l@[m], chain@[idx@[m] as int], reason@));
                }
            }
        }
        k = k + 1;
    }
    proof {
        let t = tag_reason(idx@, reason@);
        assert forall|m: int| 0 <= m < l@.len() implies #[trigger] amb_pay_of(l@[m], chain@[t[m].0 as int], t[m].1) by {
            assert(amb_pay_of(l@[m], chain@[idx@[m] as int], reason@));
        }
    }
    l
}

fn mismatch_entries(
    pairs: &Vec<(usize, usize)>,
    rows: &[usize],
    cols: &[usize],
    db: &[DbTransaction],
    chain: &[ChainPayment],
    memo: &str,
) -> (l: Vec<AmountMismatch>)
    requires
        forall|m: int| 0 <= m < pairs.len() ==> (#[trigger] pairs[m]).0 < rows.len() && pairs[m].1 < cols.len(),
        forall|k: int| 0 <= k < rows.len() ==> rows[k] < db.len(),
        forall|k: int| 0 <= k < cols.len() ==> cols[k] < chain.len(),
    ensures
        mismatch_list(l@, db@, chain@, tag_memo(resolve_pairs(pairs@, rows@, cols@), memo@)),
{
    let mut l: Vec<AmountMismatch> = Vec::new();
    let mut k: usize = 0;
    while k < pairs.len()
        invariant
            k <= pairs.len(),
            forall|m: int| 0 <= m < pairs.len() ==> (#[trigger] pairs[m]).0 < rows.len() && pairs[m].1 < cols.len(),
            forall|k: int| 0 <= k < rows.len() ==> rows[k] < db.len(),
            forall|k: int| 0 <= k < cols.len() ==> cols[k] < chain.len(),
            l@.len() == k,
            forall|m: int|
                0 <= m < k ==> #[trigger] mismatch_of(
                    l@[m],
                    db@[rows@[pairs@[m].0 as int] as int],
                    chain@[cols@[pairs@[m].1 as int] as int],
                    memo@,
                ),
        decreases pairs.len() - k,
    {
        let (i, j) = pairs[k];
        let e = mismatch_entry(&db[rows[i]], &chain[cols[j]], memo);
        l.push(e);
        proof {
            assert forall|m: int| 0 <= m < k + 1 implies #[trigger] mismatch_of(
                l@[m],
                db@[rows@[pairs@[m].0 as int] as int],
                chain@[cols@[pairs@[m].1 as int] as int],
                memo@,
            ) by {
                if m < k {
                    assert(mismatch_of(
                        l@[m],
                        db@[rows@[pairs@[m].0 as int] as int],
                        chain@[cols@[pairs@[m].1 as int] as int],
                        memo@,
                    ));
                }
            }
        }
        k = k + 1;
    }
    proof {
        let t = tag_memo(resolve_pairs(pairs@, rows@, cols@), memo@);
        assert forall|m: int| 0 <= m < t.len() implies (#[trigger] t[m]).0 < db@.len() && t[m].1 < chain@.len() by {
            assert(pairs@[m] == pairs[m]);
        }
        assert forall|m: int| 0 <= m < l@.len() implies #[trigger] mismatch_of(
            l@[m],
            db@[t[m].0 as int],
            chain@[t[m].1 as int],
            t[m].2,
        ) by {
            assert(mismatch_of(
                l@[m],
                db@[rows@[pairs@[m].0 as int] as int],
                chain@[cols@[pairs@[m].1 as int] as int],
                memo@,
            ));
        }
    }
    l
}

fn ambiguity_reason_string(memo: &str, n_db: usize, n_chain: usize) -> (s: String)
    ensures
        s@ == ambiguity_reason(memo@, n_db as nat, n_chain as nat),
{
    let a = concat("memo '", memo);
    let b = concat(a.as_str(), "': ");
    let d = decimal_string(n_db as u64);
    let c = concat(b.as_str(), d.as_str());
    let e = concat(c.as_str(), " DB row(s) and ");
    let f = decimal_string(n_chain as u64);
    let g = concat(e.as_str(), f.as_str());
    concat(g.as_str(), " chain payment(s) unresolved after exact and asset-only matching")
}

/// Matches one memo group (see [`memo_group_outcome`] and [`add_group`]).
fn match_memo_group(
    memo: &str,
    db_indices: &[usize],
    chain_indices: &[usize],
    db_txs: &[DbTransaction],
    chain_payments: &[ChainPayment],
    acc: &mut MatchAccumulator,
)
    requires
        old(acc).wf(db_txs@, chain_payments@),
        forall|k: int| 0 <= k < db_indices.len() ==> db_indices[k] < db_txs.len(),
        forall|k: int| 0 <= k < chain_indices.len() ==> chain_indices[k] < chain_payments.len(),
        old(acc).model@.matched + db_indices.len() <= usize::MAX,
    ensures
        final(acc).wf(db_txs@, chain_payments@),
        final(acc).model@ == add_group(
            old(acc).model@,
            memo@,
            memo_group_outcome(db_txs@, chain_payments@, db_indices@, chain_indices@),
        ),
{
    let ghost db = db_txs@;
    let ghost chain = chain_payments@;
    let ghost rows = db_indices@;
    let ghost cols = chain_indices@;
    let ghost v = acc.model@;
    let mut avail_db = all_set_vec(db_indices.len());
    let mut avail_chain = all_set_vec(chain_indices.len());
    let pairs1 = greedy_phase(
        PairRule::Exact,
        db_indices,
        chain_indices,
        db_txs,
        chain_payments,
        &mut avail_db,
        &mut avail_chain,
    );
    let ghost p1 = GreedyState { avail_r: avail_db@, avail_c: avail_chain@, pairs: pairs1@ };
    proof {
        lemma_greedy_counts(
            db,
            chain,
            PairRule::Exact,
            rows,
            cols,
            GreedyState { avail_r: all_set(rows.len()), avail_c: all_set(cols.len()), pairs: Seq::empty() },
            rows.len(),
        );
        lemma_trues_all_set(rows.len(), rows.len() as int);
        lemma_trues_all_set(cols.len(), cols.len() as int);
        assert(p1 == exact_pass(db, chain, rows, cols));
    }
    let pairs2 = greedy_phase(
        PairRule::AssetOnly,
        db_indices,
        chain_indices,
        db_txs,
        chain_payments,
        &mut avail_db,
        &mut avail_chain,
    );
    let ghost p2 = GreedyState { avail_r: avail_db@, avail_c: avail_chain@, pairs: pairs2@ };
    proof {
        lemma_greedy_counts(
            db,
            chain,
            PairRule::AssetOnly,
            rows,
            cols,
            GreedyState { avail_r: p1.avail_r, avail_c: p1.avail_c, pairs: Seq::empty() },
            rows.len(),
        );
        lemma_trues_bound(p2.avail_r, rows.len() as int);
        assert(p2 == asset_pass(db, chain, rows, cols));
    }
    acc.matched_count = acc.matched_count + pairs1.len() + pairs2.len();
    proof {
        assert forall|m: int| 0 <= m < pairs2.len() implies (#[trigger] pairs2[m]).0 < db_indices.len()
            && pairs2[m].1 < chain_indices.len() by {
            assert(pairs2[m] == p2.pairs[m]);
        }
    }
    let mut mm = mismatch_entries(&pairs2, db_indices, chain_indices, db_txs, chain_payments, memo);
    let ghost old_mm = acc.amount_mismatches@;
    acc.amount_mismatches.append(&mut mm);
    proof {
        lemma_mismatch_list_append(
            old_mm,
            v.mismatches,
            acc.amount_mismatches@.subrange(old_mm.len() as int, acc.amount_mismatches@.len() as int),
            tag_memo(resolve_pairs(p2.pairs, rows, cols), memo@),
            db,
            chain,
        );
    }
    let rem_db = kept_exec(db_indices, &avail_db);
    let rem_chain = kept_exec(chain_indices, &avail_chain);
    proof {
        lemma_kept_bound(rows, p2.avail_r, rows.len() as int, db.len() as int);
        lemma_kept_bound(cols, p2.avail_c, cols.len() as int, chain.len() as int);
    }
    if rem_db.len() > 0 && rem_chain.len() > 0 {
        let reason = ambiguity_reason_string(memo, rem_db.len(), rem_chain.len());
        let mut a = amb_tx_entries(&rem_db, db_txs, &reason);
        let mut b = amb_pay_entries(&rem_chain, chain_payments, &reason);
        let ghost old_a = acc.ambiguous_db@;
        let ghost old_b = acc.ambiguous_chain@;
        let ghost new_a = a@;
        let ghost new_b = b@;
        acc.ambiguous_db.append(&mut a);
        acc.ambiguous_chain.append(&mut b);
        proof {
            lemma_amb_tx_list_append(old_a, v.amb_db, new_a, tag_reason(rem_db@, reason@), db);
            lemma_amb_pay_list_append(old_b, v.amb_chain, new_b, tag_reason(rem_chain@, reason@), chain);
        }
    } else {
        let mut a = missing_entries(&rem_db, db_txs);
        let mut b = orphan_entries(&rem_chain, chain_payments);
        let ghost old_a = acc.missing_on_chain@;
        let ghost old_b = acc.orphaned_payments@;
        let ghost new_a = a@;
        let ghost new_b = b@;
        acc.missing_on_chain.append(&mut a);
        acc.orphaned_payments.append(&mut b);
        proof {
            lemma_missing_list_append(old_a, v.missing, new_a, rem_db@, db);
            lemma_orphan_list_append(old_b, v.orphaned, new_b, rem_chain@, chain);
        }
    }
    acc.model = Ghost(add_group(v, memo@, memo_group_outcome(db, chain, rows, cols)));
}


/// Matches the memo-less records (see [`add_no_memo`]).
fn match_no_memo_records(
    db_indices: &[usize],
    chain_indices: &[usize],
    db_txs: &[DbTransaction],
    chain_payments: &[ChainPayment],
    acc: &mut MatchAccumulator,
)
    requires
        old(acc).wf(db_txs@, chain_payments@),
        forall|k: int| 0 <= k < db_indices.len() ==> db_indices[k] < db_txs.len(),
        forall|k: int| 0 <= k < chain_indices.len() ==> chain_indices[k] < chain_payments.len(),
        old(acc).model@.matched + db_indices.len() <= usize::MAX,
    ensures
        final(acc).wf(db_txs@, chain_payments@),
        final(acc).model@ == add_no_memo(old(acc).model@, db_txs@, chain_payments@, db_indices@, chain_indices@),
{
    let ghost db = db_txs@;
    let ghost chain = chain_payments@;
    let ghost rows = db_indices@;
    let ghost cols = chain_indices@;
    let ghost v = acc.model@;
    let mut avail_db = all_set_vec(db_indices.len());
    let mut avail_chain = all_set_vec(chain_indices.len());
    let pairs = greedy_phase(
        PairRule::AccountAmountAsset,
        db_indices,
        chain_indices,
        db_txs,
        chain_payments,
        &mut avail_db,
        &mut avail_chain,
    );
    let ghost s1 = GreedyState { avail_r: avail_db@, avail_c: avail_chain@, pairs: pairs@ };
    proof {
        lemma_greedy_counts(
            db,
            chain,
            PairRule::AccountAmountAsset,
            rows,
            cols,
            GreedyState { avail_r: all_set(rows.len()), avail_c: all_set(cols.len()), pairs: Seq::empty() },
            rows.len(),
        );
        lemma_trues_all_set(rows.len(), rows.len() as int);
        lemma_trues_bound(s1.avail_r, rows.len() as int);
        assert(s1 == no_memo_pass(db, chain, rows, cols));
    }
    acc.matched_count = acc.matched_count + pairs.len();
    let rem_db = kept_exec(db_indices, &avail_db);
    let rem_chain = kept_exec(chain_indices, &avail_chain);
    proof {
        lemma_kept_bound(rows, s1.avail_r, rows.len() as int, db.len() as int);
        lemma_kept_bound(cols, s1.avail_c, cols.len() as int, chain.len() as int);
    }
    let mut a = missing_entries(&rem_db, db_txs);
    let mut b = orphan_entries(&rem_chain, chain_payments);
    let ghost old_a = acc.unmatched_no_memo_db@;
    let ghost old_b = acc.unmatched_no_memo_chain@;
    let ghost new_a = a@;
    let ghost new_b = b@;
    acc.unmatched_no_memo_db.append(&mut a);
    acc.unmatched_no_memo_chain.append(&mut b);
    proof {
        lemma_missing_list_append(old_a, v.nm_db, new_a, rem_db@, db);
        lemma_orphan_list_append(old_b, v.nm_chain, new_b, rem_chain@, chain);
    }
    acc.model = Ghost(add_no_memo(v, db, chain, rows, cols));
}

/// Records, by database side: the memo of each transaction.
pub open spec fn db_keys(db: Seq<DbTransaction>) -> Seq<Option<Seq<char>>> {
    db.map_values(|t: DbTransaction| opt_view(t.memo))
}

/// Records, by chain side: the memo of each payment.
pub open spec fn chain_keys(chain: Seq<ChainPayment>) -> Seq<Option<Seq<char>>> {
    chain.map_values(|p: ChainPayment| opt_view(p.memo))
}

/// The positions among the first `k` keys equal to `key`, in order.
pub open spec fn positions(keys: Seq<Option<Seq<char>>>, key: Option<Seq<char>>, k: int) -> Seq<usize>
    decreases k,
{
    if k <= 0 {
        Seq::empty()
    } else if keys[k - 1] == key {
        positions(keys, key, k - 1).push((k - 1) as usize)
    } else {
        positions(keys, key, k - 1)
    }
}

/// `acc` extended by the memos of the first `k` keys not yet in it, in
/// order of first appearance.
pub open spec fn distinct_memos(keys: Seq<Option<Seq<char>>>, k: int, acc: Seq<Seq<char>>) -> Seq<Seq<char>>
    decreases k,
{
    if k <= 0 {
        acc
    } else {
        let prev = distinct_memos(keys, k - 1, acc);
        match keys[k - 1] {
            Some(m) => if prev.contains(m) {
                prev
            } else {
                prev.push(m)
            },
            None => prev,
        }
    }
}

/// The memo groups, in order: database memos by first appearance, then
/// memos seen only on chain, by first appearance.
pub open spec fn memo_keys(db: Seq<DbTransaction>, chain: Seq<ChainPayment>) -> Seq<Seq<char>> {
    distinct_memos(
        chain_keys(chain),
        chain.len() as int,
        distinct_memos(db_keys(db), db.len() as int, Seq::empty()),
    )
}

/// The buckets after the first `g` memo groups of `memos`.
pub open spec fn groups_fold(
    db: Seq<DbTransaction>,
    chain: Seq<ChainPayment>,
    memos: Seq<Seq<char>>,
    g: int,
) -> AccView
    decreases g,
{
    if g <= 0 {
        empty_acc()
    } else {
        let m = memos[g - 1];
        add_group(
            groups_fold(db, chain, memos, g - 1),
            m,
            memo_group_outcome(
                db,
                chain,
                positions(db_keys(db), Some(m), db.len() as int),
                positions(chain_keys(chain), Some(m), chain.len() as int),
            ),
        )
    }
}

/// The buckets of reconciling `db` against `chain`: every memo group in
/// order, then the memo-less records.
pub open spec fn matching_outcome(db: Seq<DbTransaction>, chain: Seq<ChainPayment>) -> AccView {
    let memos = memo_keys(db, chain);
    add_no_memo(
        groups_fold(db, chain, memos, memos.len() as int),
        db,
        chain,
        positions(db_keys(db), None, db.len() as int),
        positions(chain_keys(chain), None, chain.len() as int),
    )
}

/// Records of the database side accounted for in `v`.
pub open spec fn db_accounted(v: AccView) -> nat {
    v.matched + v.missing.len() + v.amb_db.len() + v.nm_db.len()
}

/// Records of the chain side accounted for in `v`.
pub open spec fn chain_accounted(v: AccView) -> nat {
    v.matched + v.orphaned.len() + v.amb_chain.len() + v.nm_chain.len()
}

/// Adding a memo group accounts for exactly its records on each side.
proof fn lemma_group_accounts(
    v: AccView,
    memo: Seq<char>,
    db: Seq<DbTransaction>,
    chain: Seq<ChainPayment>,
    rows: Seq<usize>,
    cols: Seq<usize>,
)
    ensures
        db_accounted(add_group(v, memo, memo_group_outcome(db, chain, rows, cols))) == db_accounted(v) + rows.len(),
        chain_accounted(add_group(v, memo, memo_group_outcome(db, chain, rows, cols))) == chain_accounted(v) + cols.len(),
        add_group(v, memo, memo_group_outcome(db, chain, rows, cols)).matched <= v.matched + rows.len(),
{
    let fresh = GreedyState { avail_r: all_set(rows.len()), avail_c: all_set(cols.len()), pairs: Seq::empty() };
    lemma_greedy_counts(db, chain, PairRule::Exact, rows, cols, fresh, rows.len());
    let p1 = exact_pass(db, chain, rows, cols);
    lemma_greedy_counts(
        db,
        chain,
        PairRule::AssetOnly,
        rows,
        cols,
        GreedyState { avail_r: p1.avail_r, avail_c: p1.avail_c, pairs: Seq::empty() },
        rows.len(),
    );
    lemma_trues_all_set(rows.len(), rows.len() as int);
    lemma_trues_all_set(cols.len(), cols.len() as int);
    let p2 = asset_pass(db, chain, rows, cols);
    lemma_kept_len(rows, p2.avail_r, rows.len() as int);
    lemma_kept_len(cols, p2.avail_c, cols.len() as int);
}

/// Adding the memo-less records accounts for exactly them on each side.
proof fn lemma_no_memo_accounts(
    v: AccView,
    db: Seq<DbTransaction>,
    chain: Seq<ChainPayment>,
    rows: Seq<usize>,
    cols: Seq<usize>,
)
    ensures
        db_accounted(add_no_memo(v, db, chain, rows, cols)) == db_accounted(v) + rows.len(),
        chain_accounted(add_no_memo(v, db, chain, rows, cols)) == chain_accounted(v) + cols.len(),
        add_no_memo(v, db, chain, rows, cols).matched <= v.matched + rows.len(),
{
    let fresh = GreedyState { avail_r: all_set(rows.len()), avail_c: all_set(cols.len()), pairs: Seq::empty() };
    lemma_greedy_counts(db, chain, PairRule::AccountAmountAsset, rows, cols, fresh, rows.len());
    lemma_trues_all_set(rows.len(), rows.len() as int);
    lemma_trues_all_set(cols.len(), cols.len() as int);
    let s1 = no_memo_pass(db, chain, rows, cols);
    lemma_kept_len(rows, s1.avail_r, rows.len() as int);
    lemma_kept_len(cols, s1.avail_c, cols.len() as int);
}

/// Total size of the groups of the first `g` memos among the first `k` keys.
pub open spec fn group_total(keys: Seq<Option<Seq<char>>>, memos: Seq<Seq<char>>, g: int, k: int) -> nat
    decreases g,
{
    if g <= 0 {
        0
    } else {
        group_total(keys, memos, g - 1, k) + positions(keys, Some(memos[g - 1]), k).len()
    }
}

/// Number of the first `g` memos equal to `key`.
pub open spec fn hits(memos: Seq<Seq<char>>, key: Option<Seq<char>>, g: int) -> nat
    decreases g,
{
    if g <= 0 {
        0
    } else if Some(memos[g - 1]) == key {
        hits(memos, key, g - 1) + 1
    } else {
        hits(memos, key, g - 1)
    }
}

proof fn lemma_group_total_step(keys: Seq<Option<Seq<char>>>, memos: Seq<Seq<char>>, g: int, k: int)
    requires
        0 <= k < keys.len(),
    ensures
        group_total(keys, memos, g, k + 1) == group_total(keys, memos, g, k) + hits(memos, keys[k], g),
    decreases g,
{
    if g > 0 {
        lemma_group_total_step(keys, memos, g - 1, k);
    }
}

proof fn lemma_hits_distinct(memos: Seq<Seq<char>>, key: Option<Seq<char>>, g: int)
    requires
        memos.no_duplicates(),
        g <= memos.len(),
    ensures
        key is None ==> hits(memos, key, g) == 0,
        key is Some ==> hits(memos, key, g) == if exists|i: int| 0 <= i < g && memos[i] == key->0 {
            1nat
        } else {
            0nat
        },
    decreases g,
{
    if g > 0 {
        lemma_hits_distinct(memos, key, g - 1);
        if key is Some && memos[g - 1] == key->0 {
            assert forall|i: int| 0 <= i < g - 1 implies memos[i] != key->0 by {
                assert(memos[i] != memos[g - 1]);
            }
        }
        if key is Some && exists|i: int| 0 <= i < g && memos[i] == key->0 {
            let i = choose|i: int| 0 <= i < g && memos[i] == key->0;
            if i < g - 1 {
                assert(exists|i: int| 0 <= i < g - 1 && memos[i] == key->0);
            }
        }
    }
}

/// The memo groups and the memo-less records partition the keys: their
/// sizes add up to the number of keys.
proof fn lemma_partition(keys: Seq<Option<Seq<char>>>, memos: Seq<Seq<char>>, k: int)
    requires
        0 <= k <= keys.len(),
        memos.no_duplicates(),
        forall|i: int| 0 <= i < k && (#[trigger] keys[i]) is Some ==> memos.contains(keys[i]->0),
    ensures
        group_total(keys, memos, memos.len() as int, k) + positions(keys, None, k).len() == k,
    decreases k,
{
    if k == 0 {
        lemma_group_total_empty(keys, memos, memos.len() as int);
    } else {
        lemma_partition(keys, memos, k - 1);
        lemma_group_total_step(keys, memos, memos.len() as int, k - 1);
        lemma_hits_distinct(memos, keys[k - 1], memos.len() as int);
        let key = keys[k - 1];
        if key is Some {
            let m = key->0;
            assert(memos.contains(m));
            assert(exists|i: int| 0 <= i < memos.len() && memos[i] == m);
            assert(hits(memos, key, memos.len() as int) == 1);
            assert(positions(keys, None, k) == positions(keys, None, k - 1));
        } else {
            assert(hits(memos, key, memos.len() as int) == 0);
            assert(positions(keys, None, k).len() == positions(keys, None, k - 1).len() + 1);
        }
    }
}

proof fn lemma_group_total_empty(keys: Seq<Option<Seq<char>>>, memos: Seq<Seq<char>>, g: int)
    ensures
        group_total(keys, memos, g, 0) == 0,
    decreases g,
{
    if g > 0 {
        lemma_group_total_empty(keys, memos, g - 1);
    }
}

proof fn lemma_group_total_mono(keys: Seq<Option<Seq<char>>>, memos: Seq<Seq<char>>, g: int, h: int, k: int)
    requires
        0 <= g <= h,
    ensures
        group_total(keys, memos, g, k) <= group_total(keys, memos, h, k),
    decreases h,
{
    if h > g {
        lemma_group_total_mono(keys, memos, g, h - 1, k);
    }
}

/// `distinct_memos` keeps what it started with, adds no duplicate, and
/// collects every memo it passes.
proof fn lemma_distinct_memos(keys: Seq<Option<Seq<char>>>, k: int, acc: Seq<Seq<char>>)
    requires
        acc.no_duplicates(),
        k <= keys.len(),
    ensures
        distinct_memos(keys, k, acc).no_duplicates(),
        forall|m: Seq<char>| acc.contains(m) ==> #[trigger] distinct_memos(keys, k, acc).contains(m),
        forall|i: int| 0 <= i < k && (#[trigger] keys[i]) is Some ==> distinct_memos(keys, k, acc).contains(keys[i]->0),
    decreases k,
{
    if k > 0 {
        lemma_distinct_memos(keys, k - 1, acc);
        let prev = distinct_memos(keys, k - 1, acc);
        let cur = distinct_memos(keys, k, acc);
        match keys[k - 1] {
            Some(m) => {
                if !prev.contains(m) {
                    assert(cur == prev.push(m));
                    assert forall|x: Seq<char>| prev.contains(x) implies cur.contains(x) by {
                        let j = choose|j: int| 0 <= j < prev.len() && prev[j] == x;
                        assert(cur[j] == x);
                    }
                    assert(cur[prev.len() as int] == m);
                    assert forall|a: int, b: int| 0 <= a < b < cur.len() implies cur[a] != cur[b] by {
                        if b == prev.len() {
                            assert(!prev.contains(m));
                            assert(prev[a] != m);
                        }
                    }
                }
            },
            None => {},
        }
    }
}

/// Every record of either side is accounted for exactly once: the matched
/// pairs, the missing, ambiguous and unmatched transactions add up to the
/// database side, and the matched pairs, the orphaned, ambiguous and
/// unmatched payments add up to the chain side.
pub proof fn lemma_matching_conserves_records(db: Seq<DbTransaction>, chain: Seq<ChainPayment>)
    ensures
        db_accounted(matching_outcome(db, chain)) == db.len(),
        chain_accounted(matching_outcome(db, chain)) == chain.len(),
{
    let memos = memo_keys(db, chain);
    let dk = db_keys(db);
    let ck = chain_keys(chain);
    let dm = distinct_memos(dk, db.len() as int, Seq::empty());
    lemma_distinct_memos(dk, db.len() as int, Seq::empty());
    lemma_distinct_memos(ck, chain.len() as int, dm);
    assert forall|i: int| 0 <= i < db.len() && (#[trigger] dk[i]) is Some implies memos.contains(dk[i]->0) by {
        assert(dm.contains(dk[i]->0));
    }
    lemma_partition(dk, memos, db.len() as int);
    lemma_partition(ck, memos, chain.len() as int);
    lemma_fold_accounts(db, chain, memos, memos.len() as int);
    lemma_no_memo_accounts(
        groups_fold(db, chain, memos, memos.len() as int),
        db,
        chain,
        positions(dk, None, db.len() as int),
        positions(ck, None, chain.len() as int),
    );
}

/// After `g` groups, the buckets account for the groups' records.
proof fn lemma_fold_accounts(db: Seq<DbTransaction>, chain: Seq<ChainPayment>, memos: Seq<Seq<char>>, g: int)
    ensures
        db_accounted(groups_fold(db, chain, memos, g)) == group_total(db_keys(db), memos, g, db.len() as int),
        chain_accounted(groups_fold(db, chain, memos, g)) == group_total(
            chain_keys(chain),
            memos,
            g,
            chain.len() as int,
        ),
    decreases g,
{
    if g > 0 {
        lemma_fold_accounts(db, chain, memos, g - 1);
        let m = memos[g - 1];
        lemma_group_accounts(
            groups_fold(db, chain, memos, g - 1),
            m,
            db,
            chain,
            positions(db_keys(db), Some(m), db.len() as int),
            positions(chain_keys(chain), Some(m), chain.len() as int),
        );
    }
}


/// The report's buckets report exactly the records `v` names.
pub open spec fn reports(
    r: ReconciliationReport,
    db: Seq<DbTransaction>,
    chain: Seq<ChainPayment>,
    v: AccView,
) -> bool {
    &&& r.matched_count == v.matched
    &&& missing_list(r.missing_on_chain@, db, v.missing)
    &&& orphan_list(r.orphaned_payments@, chain, v.orphaned)
    &&& mismatch_list(r.amount_mismatches@, db, chain, v.mismatches)
    &&& amb_tx_list(r.ambiguous_db@, db, v.amb_db)
    &&& amb_pay_list(r.ambiguous_chain@, chain, v.amb_chain)
    &&& missing_list(r.unmatched_no_memo_db@, db, v.nm_db)
    &&& orphan_list(r.unmatched_no_memo_chain@, chain, v.nm_chain)
}

/// The text of an optional borrowed string.
pub open spec fn opt_str_view(o: Option<&str>) -> Option<Seq<char>> {
    match o {
        Some(s) => Some(s@),
        None => None,
    }
}

/// The texts of a sequence of strings.
pub open spec fn strings_view(v: Seq<String>) -> Seq<Seq<char>> {
    v.map_values(|s: String| s@)
}

fn key_is(o: &Option<String>, key: Option<&str>) -> (r: bool)
    ensures
        r == (opt_view(*o) == opt_str_view(key)),
{
    match (o, key) {
        (Some(s), Some(k)) => str_eq(s.as_str(), k),
        (None, None) => true,
        _ => false,
    }
}

proof fn lemma_positions_bound(keys: Seq<Option<Seq<char>>>, key: Option<Seq<char>>, k: int)
    ensures
        forall|m: int| 0 <= m < positions(keys, key, k).len() ==> #[trigger] positions(keys, key, k)[m] < k,
    decreases k,
{
    if k > 0 {
        lemma_positions_bound(keys, key, k - 1);
        let prev = positions(keys, key, k - 1);
        assert forall|m: int| 0 <= m < positions(keys, key, k).len() implies #[trigger] positions(keys, key, k)[m] < k by {
            if m < prev.len() {
                assert(positions(keys, key, k)[m] == prev[m]);
            }
        }
    }
}

/// Every position of `positions(keys, key, k)` holds `key`.
proof fn lemma_positions_hold_key(keys: Seq<Option<Seq<char>>>, key: Option<Seq<char>>, k: int)
    requires
        k <= keys.len(),
        keys.len() <= usize::MAX,
    ensures
        k >= 0 ==> positions(keys, key, k).len() <= k,
        forall|m: int|
            0 <= m < positions(keys, key, k).len() ==> keys[#[trigger] positions(keys, key, k)[m] as int] == key,
    decreases k,
{
    if k > 0 {
        lemma_positions_hold_key(keys, key, k - 1);
        lemma_positions_bound(keys, key, k - 1);
        let prev = positions(keys, key, k - 1);
        assert forall|m: int| 0 <= m < positions(keys, key, k).len() implies keys[#[trigger] positions(
            keys,
            key,
            k,
        )[m] as int] == key by {
            if m < prev.len() {
                assert(positions(keys, key, k)[m] == prev[m]);
            }
        }
    }
}

/// Every pair a greedy pass makes pairs its row and column under the pass's
/// rule, provided the pairs it started with did.
proof fn lemma_greedy_pairs_sound(
    db: Seq<DbTransaction>,
    chain: Seq<ChainPayment>,
    rule: PairRule,
    rows: Seq<usize>,
    cols: Seq<usize>,
    s0: GreedyState,
    k: nat,
)
    requires
        k <= rows.len(),
        rows.len() <= usize::MAX,
        cols.len() <= usize::MAX,
        s0.avail_r.len() == rows.len(),
        s0.avail_c.len() == cols.len(),
        forall|m: int|
            0 <= m < s0.pairs.len() ==> (#[trigger] s0.pairs[m]).0 < rows.len() && s0.pairs[m].1 < cols.len()
                && pairs_under(rule, db[rows[s0.pairs[m].0 as int] as int], chain[cols[s0.pairs[m].1 as int] as int]),
    ensures
        forall|m: int|
            0 <= m < greedy(db, chain, rule, rows, cols, s0, k).pairs.len() ==> {
                let pr = #[trigger] greedy(db, chain, rule, rows, cols, s0, k).pairs[m];
                &&& pr.0 < rows.len()
                &&& pr.1 < cols.len()
                &&& pairs_under(rule, db[rows[pr.0 as int] as int], chain[cols[pr.1 as int] as int])
            },
    decreases k,
{
    if k > 0 {
        lemma_greedy_pairs_sound(db, chain, rule, rows, cols, s0, (k - 1) as nat);
        lemma_greedy_counts(db, chain, rule, rows, cols, s0, (k - 1) as nat);
        let s = greedy(db, chain, rule, rows, cols, s0, (k - 1) as nat);
        let i = k - 1;
        if s.avail_r[i] {
            let j = first_partner(chain, rule, db[rows[i] as int], cols, s.avail_c, 0);
            lemma_first_partner(chain, rule, db[rows[i] as int], cols, s.avail_c, 0);
            if j < cols.len() {
                let g = greedy(db, chain, rule, rows, cols, s0, k);
                assert(g.pairs == s.pairs.push((i as usize, j as usize)));
                assert forall|m: int| 0 <= m < g.pairs.len() implies {
                    let pr = #[trigger] g.pairs[m];
                    &&& pr.0 < rows.len()
                    &&& pr.1 < cols.len()
                    &&& pairs_under(rule, db[rows[pr.0 as int] as int], chain[cols[pr.1 as int] as int])
                } by {
                    if m < s.pairs.len() {
                        assert(g.pairs[m] == s.pairs[m]);
                    }
                }
            }
        }
    }
}

/// A greedy pass only ever clears flags, and leaves the flags of the rows
/// it has not reached untouched.
proof fn lemma_greedy_frame(
    db: Seq<DbTransaction>,
    chain: Seq<ChainPayment>,
    rule: PairRule,
    rows: Seq<usize>,
    cols: Seq<usize>,
    s0: GreedyState,
    k: nat,
)
    requires
        k <= rows.len(),
        s0.avail_r.len() == rows.len(),
        s0.avail_c.len() == cols.len(),
    ensures
        forall|i: int|
            0 <= i < rows.len() && #[trigger] greedy(db, chain, rule, rows, cols, s0, k).avail_r[i]
                ==> s0.avail_r[i],
        forall|i: int|
            k <= i < rows.len() ==> #[trigger] greedy(db, chain, rule, rows, cols, s0, k).avail_r[i]
                == s0.avail_r[i],
        forall|j: int|
            0 <= j < cols.len() && #[trigger] greedy(db, chain, rule, rows, cols, s0, k).avail_c[j]
                ==> s0.avail_c[j],
    decreases k,
{
    if k > 0 {
        lemma_greedy_frame(db, chain, rule, rows, cols, s0, (k - 1) as nat);
        lemma_greedy_counts(db, chain, rule, rows, cols, s0, (k - 1) as nat);
        let s = greedy(db, chain, rule, rows, cols, s0, (k - 1) as nat);
        let i0 = k - 1;
        if s.avail_r[i0] {
            let j = first_partner(chain, rule, db[rows[i0] as int], cols, s.avail_c, 0);
            lemma_first_partner(chain, rule, db[rows[i0] as int], cols, s.avail_c, 0);
            let g = greedy(db, chain, rule, rows, cols, s0, k);
            if j < cols.len() {
                assert forall|i: int| 0 <= i < rows.len() && #[trigger] g.avail_r[i] implies s0.avail_r[i] by {
                    assert(g.avail_r[i] == s.avail_r[i] || i == i0);
                }
                assert forall|j2: int| 0 <= j2 < cols.len() && #[trigger] g.avail_c[j2] implies s0.avail_c[j2] by {
                    assert(s.avail_c[j2]);
                }
            }
        }
    }
}

/// When no available column is found for `t` from position `j` on, no
/// available column from `j` on pairs with `t`.
proof fn lemma_first_partner_none(
    chain: Seq<ChainPayment>,
    rule: PairRule,
    t: DbTransaction,
    cols: Seq<usize>,
    avail: Seq<bool>,
    j: int,
)
    requires
        0 <= j,
        first_partner(chain, rule, t, cols, avail, j) >= cols.len(),
    ensures
        forall|j2: int|
            j <= j2 < cols.len() && #[trigger] avail[j2] ==> !pairs_under(rule, t, chain[cols[j2] as int]),
    decreases cols.len() - j,
{
    if j < cols.len() {
        lemma_first_partner_none(chain, rule, t, cols, avail, j + 1);
    }
}

/// Every pair a greedy pass makes, from no pairs, joins a row and a column
/// whose flags were set when the pass began.
proof fn lemma_greedy_pairs_from_available(
    db: Seq<DbTransaction>,
    chain: Seq<ChainPayment>,
    rule: PairRule,
    rows: Seq<usize>,
    cols: Seq<usize>,
    s0: GreedyState,
    k: nat,
)
    requires
        k <= rows.len(),
        rows.len() <= usize::MAX,
        cols.len() <= usize::MAX,
        s0.avail_r.len() == rows.len(),
        s0.avail_c.len() == cols.len(),
        s0.pairs.len() == 0,
    ensures
        forall|m: int|
            0 <= m < greedy(db, chain, rule, rows, cols, s0, k).pairs.len() ==> {
                let pr = #[trigger] greedy(db, chain, rule, rows, cols, s0, k).pairs[m];
                &&& pr.0 < rows.len()
                &&& pr.1 < cols.len()
                &&& s0.avail_r[pr.0 as int]
                &&& s0.avail_c[pr.1 as int]
            },
    decreases k,
{
    if k > 0 {
        lemma_greedy_pairs_from_available(db, chain, rule, rows, cols, s0, (k - 1) as nat);
        lemma_greedy_frame(db, chain, rule, rows, cols, s0, (k - 1) as nat);
        lemma_greedy_counts(db, chain, rule, rows, cols, s0, (k - 1) as nat);
        let s = greedy(db, chain, rule, rows, cols, s0, (k - 1) as nat);
        let i0 = k - 1;
        if s.avail_r[i0] {
            let j = first_partner(chain, rule, db[rows[i0] as int], cols, s.avail_c, 0);
            lemma_first_partner(chain, rule, db[rows[i0] as int], cols, s.avail_c, 0);
            if j < cols.len() {
                let g = greedy(db, chain, rule, rows, cols, s0, k);
                assert(g.pairs == s.pairs.push((i0 as usize, j as usize)));
                assert(s.avail_r[i0] ==> s0.avail_r[i0]);
                assert(s.avail_c[j] ==> s0.avail_c[j]);
                assert forall|m: int| 0 <= m < g.pairs.len() implies {
                    let pr = #[trigger] g.pairs[m];
                    &&& pr.0 < rows.len()
                    &&& pr.1 < cols.len()
                    &&& s0.avail_r[pr.0 as int]
                    &&& s0.avail_c[pr.1 as int]
                } by {
                    if m < s.pairs.len() {
                        assert(g.pairs[m] == s.pairs[m]);
                    }
                }
            }
        }
    }
}

/// After a greedy pass over the first `k` rows, no row among them that is
/// still unpaired pairs with a column that is still available.
proof fn lemma_greedy_exhausted(
    db: Seq<DbTransaction>,
    chain: Seq<ChainPayment>,
    rule: PairRule,
    rows: Seq<usize>,
    cols: Seq<usize>,
    s0: GreedyState,
    k: nat,
)
    requires
        k <= rows.len(),
        s0.avail_r.len() == rows.len(),
        s0.avail_c.len() == cols.len(),
    ensures
        forall|i: int, j: int|
            0 <= i < k && 0 <= j < cols.len() && #[trigger] greedy(db, chain, rule, rows, cols, s0, k).avail_r[i]
                && #[trigger] greedy(db, chain, rule, rows, cols, s0, k).avail_c[j] ==> !pairs_under(
                rule,
                db[rows[i] as int],
                chain[cols[j] as int],
            ),
    decreases k,
{
    if k > 0 {
        lemma_greedy_exhausted(db, chain, rule, rows, cols, s0, (k - 1) as nat);
        lemma_greedy_counts(db, chain, rule, rows, cols, s0, (k - 1) as nat);
        let s = greedy(db, chain, rule, rows, cols, s0, (k - 1) as nat);
        let g = greedy(db, chain, rule, rows, cols, s0, k);
        let i0 = k - 1;
        if s.avail_r[i0] {
            let j = first_partner(chain, rule, db[rows[i0] as int], cols, s.avail_c, 0);
            lemma_first_partner(chain, rule, db[rows[i0] as int], cols, s.avail_c, 0);
            if j < cols.len() {
                assert forall|i: int, j2: int|
                    0 <= i < k && 0 <= j2 < cols.len() && #[trigger] g.avail_r[i] && #[trigger] g.avail_c[j2]
                    implies !pairs_under(rule, db[rows[i] as int], chain[cols[j2] as int]) by {
                    assert(i != i0);
                    assert(g.avail_r[i] == s.avail_r[i]);
                    assert(s.avail_c[j2]);
                }
            } else {
                lemma_first_partner_none(chain, rule, db[rows[i0] as int], cols, s.avail_c, 0);
                assert forall|i: int, j2: int|
                    0 <= i < k && 0 <= j2 < cols.len() && #[trigger] g.avail_r[i] && #[trigger] g.avail_c[j2]
                    implies !pairs_under(rule, db[rows[i] as int], chain[cols[j2] as int]) by {
                    assert(g == s);
                    if i < i0 {
                        assert(s.avail_r[i] && s.avail_c[j2]);
                    }
                }
            }
        }
    }
}

/// Whether the mismatch `(d, c, memo)` pairs a database transaction and a
/// chain payment that both carry `memo`, share their asset code and differ
/// in amount.
pub open spec fn mismatch_sound(db: Seq<DbTransaction>, chain: Seq<ChainPayment>, e: (usize, usize, Seq<char>)) -> bool {
    &&& e.0 < db.len()
    &&& e.1 < chain.len()
    &&& db[e.0 as int].asset_code@ == chain[e.1 as int].asset_code@
    &&& db[e.0 as int].amount@ != chain[e.1 as int].amount@
    &&& opt_view(db[e.0 as int].memo) == Some(e.2)
    &&& opt_view(chain[e.1 as int].memo) == Some(e.2)
}

proof fn lemma_fold_mismatches_sound(db: Seq<DbTransaction>, chain: Seq<ChainPayment>, memos: Seq<Seq<char>>, g: int)
    requires
        g <= memos.len(),
        db.len() <= usize::MAX,
        chain.len() <= usize::MAX,
    ensures
        forall|m: int|
            0 <= m < groups_fold(db, chain, memos, g).mismatches.len() ==> mismatch_sound(
                db,
                chain,
                #[trigger] groups_fold(db, chain, memos, g).mismatches[m],
            ),
    decreases g,
{
    if g > 0 {
        lemma_fold_mismatches_sound(db, chain, memos, g - 1);
        let memo = memos[g - 1];
        let rows = positions(db_keys(db), Some(memo), db.len() as int);
        let cols = positions(chain_keys(chain), Some(memo), chain.len() as int);
        lemma_positions_hold_key(db_keys(db), Some(memo), db.len() as int);
        lemma_positions_hold_key(chain_keys(chain), Some(memo), chain.len() as int);
        lemma_positions_bound(db_keys(db), Some(memo), db.len() as int);
        lemma_positions_bound(chain_keys(chain), Some(memo), chain.len() as int);
        let p1 = exact_pass(db, chain, rows, cols);
        lemma_trues_all_set(rows.len(), 0);
        lemma_greedy_counts(
            db,
            chain,
            PairRule::Exact,
            rows,
            cols,
            GreedyState { avail_r: all_set(rows.len()), avail_c: all_set(cols.len()), pairs: Seq::empty() },
            rows.len(),
        );
        let s0 = GreedyState { avail_r: p1.avail_r, avail_c: p1.avail_c, pairs: Seq::<(usize, usize)>::empty() };
        lemma_greedy_pairs_sound(db, chain, PairRule::AssetOnly, rows, cols, s0, rows.len());
        lemma_greedy_pairs_from_available(db, chain, PairRule::AssetOnly, rows, cols, s0, rows.len());
        lemma_greedy_exhausted(
            db,
            chain,
            PairRule::Exact,
            rows,
            cols,
            GreedyState { avail_r: all_set(rows.len()), avail_c: all_set(cols.len()), pairs: Seq::empty() },
            rows.len(),
        );
        let p2 = asset_pass(db, chain, rows, cols);
        let prev = groups_fold(db, chain, memos, g - 1);
        let tagged = tag_memo(resolve_pairs(p2.pairs, rows, cols), memo);
        let now = groups_fold(db, chain, memos, g);
        assert(now.mismatches == prev.mismatches + tagged);
        assert forall|m: int| 0 <= m < now.mismatches.len() implies mismatch_sound(
            db,
            chain,
            #[trigger] now.mismatches[m],
        ) by {
            if m >= prev.mismatches.len() {
                let q = m - prev.mismatches.len();
                let pr = p2.pairs[q];
                assert(tagged[q] == (rows[pr.0 as int], cols[pr.1 as int], memo));
                assert(p1.avail_r[pr.0 as int] && p1.avail_c[pr.1 as int]);
                assert(!pairs_under(PairRule::Exact, db[rows[pr.0 as int] as int], chain[cols[pr.1 as int] as int]));
                assert(db_keys(db)[rows[pr.0 as int] as int] == opt_view(db[rows[pr.0 as int] as int].memo));
                assert(chain_keys(chain)[cols[pr.1 as int] as int] == opt_view(
                    chain[cols[pr.1 as int] as int].memo,
                ));
            } else {
                assert(now.mismatches[m] == prev.mismatches[m]);
            }
        }
    }
}

/// Every amount mismatch reported pairs a database transaction and a chain
/// payment of the same memo group that share their asset code and whose
/// amounts differ: a pair that agrees on amount and asset is always matched
/// exactly, never reported as a mismatch.
pub proof fn lemma_mismatches_sound(db: Seq<DbTransaction>, chain: Seq<ChainPayment>)
    requires
        db.len() <= usize::MAX,
        chain.len() <= usize::MAX,
    ensures
        forall|m: int|
            0 <= m < matching_outcome(db, chain).mismatches.len() ==> mismatch_sound(
                db,
                chain,
                #[trigger] matching_outcome(db, chain).mismatches[m],
            ),
{
    let memos = memo_keys(db, chain);
    lemma_fold_mismatches_sound(db, chain, memos, memos.len() as int);
}

proof fn lemma_fold_mismatches_counted(db: Seq<DbTransaction>, chain: Seq<ChainPayment>, memos: Seq<Seq<char>>, g: int)
    ensures
        groups_fold(db, chain, memos, g).mismatches.len() <= groups_fold(db, chain, memos, g).matched,
    decreases g,
{
    if g > 0 {
        lemma_fold_mismatches_counted(db, chain, memos, g - 1);
    }
}

/// Every reported amount mismatch is one of the matched pairs: there are
/// never more mismatches than matches.
pub proof fn lemma_mismatches_within_matched(db: Seq<DbTransaction>, chain: Seq<ChainPayment>)
    ensures
        matching_outcome(db, chain).mismatches.len() <= matching_outcome(db, chain).matched,
{
    let memos = memo_keys(db, chain);
    lemma_fold_mismatches_counted(db, chain, memos, memos.len() as int);
}

fn db_positions(db: &[DbTransaction], key: Option<&str>) -> (r: Vec<usize>)
    ensures
        r@ == positions(db_keys(db@), opt_str_view(key), db.len() as int),
        forall|m: int| 0 <= m < r.len() ==> r[m] < db.len(),
{
    let mut r: Vec<usize> = Vec::new();
    let mut i: usize = 0;
    while i < db.len()
        invariant
            i <= db.len(),
            r@ == positions(db_keys(db@), opt_str_view(key), i as int),
        decreases db.len() - i,
    {
        if key_is(&db[i].memo, key) {
            r.push(i);
        }
        i = i + 1;
    }
    proof {
        lemma_positions_bound(db_keys(db@), opt_str_view(key), db.len() as int);
    }
    r
}

fn chain_positions(chain: &[ChainPayment], key: Option<&str>) -> (r: Vec<usize>)
    ensures
        r@ == positions(chain_keys(chain@), opt_str_view(key), chain.len() as int),
        forall|m: int| 0 <= m < r.len() ==> r[m] < chain.len(),
{
    let mut r: Vec<usize> = Vec::new();
    let mut i: usize = 0;
    while i < chain.len()
        invariant
            i <= chain.len(),
            r@ == positions(chain_keys(chain@), opt_str_view(key), i as int),
        decreases chain.len() - i,
    {
        if key_is(&chain[i].memo, key) {
            r.push(i);
        }
        i = i + 1;
    }
    proof {
        lemma_positions_bound(chain_keys(chain@), opt_str_view(key), chain.len() as int);
    }
    r
}

fn contains_memo(memos: &Vec<String>, m: &str) -> (r: bool)
    ensures
        r == strings_view(memos@).contains(m@),
{
    let mut i: usize = 0;
    while i < memos.len()
        invariant
            i <= memos.len(),
            forall|j: int| 0 <= j < i ==> memos@[j]@ != m@,
        decreases memos.len() - i,
    {
        if str_eq(memos[i].as_str(), m) {
            proof {
                assert(strings_view(memos@)[i as int] == m@);
            }
            return true;
        }
        i = i + 1;
    }
    proof {
        if strings_view(memos@).contains(m@) {
            let j = choose|j: int| 0 <= j < strings_view(memos@).len() && strings_view(memos@)[j] == m@;
            assert(memos@[j]@ == m@);
        }
    }
    false
}

fn note_memo(memos: &mut Vec<String>, o: &Option<String>)
    ensures
        strings_view(final(memos)@) == match opt_view(*o) {
            Some(m) => if strings_view(old(memos)@).contains(m) {
                strings_view(old(memos)@)
            } else {
                strings_view(old(memos)@).push(m)
            },
            None => strings_view(old(memos)@),
        },
{
    match o {
        Some(m) => {
            if !contains_memo(memos, m.as_str()) {
                let ghost before = memos@;
                memos.push(m.clone());
                proof {
                    assert(strings_view(memos@) =~= strings_view(before).push(m@));
                }
            }
        },
        None => {},
    }
}

/// Reconciles `db_txs` against `chain_payments` for the period
/// `[period_start, period_end]`: every memo group in order of
/// [`memo_keys`], then the memo-less records (see [`matching_outcome`]).
/// Every record lands in exactly one bucket.
pub fn perform_matching(
    db_txs: &[DbTransaction],
    chain_payments: &[ChainPayment],
    period_start: i64,
    period_end: i64,
) -> (r: ReconciliationReport)
    ensures
        r.period_start == period_start,
        r.period_end == period_end,
        r.total_db_transactions == db_txs.len(),
        r.total_chain_payments == chain_payments.len(),
        reports(r, db_txs@, chain_payments@, matching_outcome(db_txs@, chain_payments@)),
        r.total_db_transactions == r.matched_count + r.missing_on_chain.len() + r.ambiguous_db.len()
            + r.unmatched_no_memo_db.len(),
        r.total_chain_payments == r.matched_count + r.orphaned_payments.len() + r.ambiguous_chain.len()
            + r.unmatched_no_memo_chain.len(),
{
    let ghost db = db_txs@;
    let ghost chain = chain_payments@;
    let mut memos: Vec<String> = Vec::new();
    let mut i: usize = 0;
    while i < db_txs.len()
        invariant
            i <= db_txs.len(),
            db == db_txs@,
            strings_view(memos@) == distinct_memos(db_keys(db), i as int, Seq::empty()),
        decreases db_txs.len() - i,
    {
        note_memo(&mut memos, &db_txs[i].memo);
        i = i + 1;
    }
    let ghost dm = strings_view(memos@);
    let mut j: usize = 0;
    while j < chain_payments.len()
        invariant
            j <= chain_payments.len(),
            chain == chain_payments@,
            dm == distinct_memos(db_keys(db), db.len() as int, Seq::empty()),
            strings_view(memos@) == distinct_memos(chain_keys(chain), j as int, dm),
        decreases chain_payments.len() - j,
    {
        note_memo(&mut memos, &chain_payments[j].memo);
        j = j + 1;
    }
    let ghost mv = strings_view(memos@);
    let ghost n = db.len() as int;
    proof {
        assert(mv == memo_keys(db, chain));
        lemma_matching_conserves_records(db, chain);
        lemma_distinct_memos(db_keys(db), n, Seq::empty());
        lemma_distinct_memos(chain_keys(chain), chain.len() as int, dm);
        assert forall|i: int| 0 <= i < n && (#[trigger] db_keys(db)[i]) is Some implies mv.contains(
            db_keys(db)[i]->0,
        ) by {
            assert(dm.contains(db_keys(db)[i]->0));
        }
        lemma_partition(db_keys(db), mv, n);
    }
    let mut acc = MatchAccumulator::new();
    let mut g: usize = 0;
    while g < memos.len()
        invariant
            g <= memos.len(),
            db == db_txs@,
            chain == chain_payments@,
            mv == strings_view(memos@),
            n == db.len(),
            acc.wf(db, chain),
            acc.model@ == groups_fold(db, chain, mv, g as int),
            db_accounted(acc.model@) == group_total(db_keys(db), mv, g as int, n),
            group_total(db_keys(db), mv, mv.len() as int, n) <= n,
        decreases memos.len() - g,
    {
        let rows = db_positions(db_txs, Some(memos[g].as_str()));
        let cols = chain_positions(chain_payments, Some(memos[g].as_str()));
        proof {
            assert(memos@[g as int]@ == mv[g as int]);
            lemma_group_total_mono(db_keys(db), mv, g + 1, mv.len() as int, n);
        }
        match_memo_group(memos[g].as_str(), &rows, &cols, db_txs, chain_payments, &mut acc);
        proof {
            lemma_group_accounts(
                groups_fold(db, chain, mv, g as int),
                mv[g as int],
                db,
                chain,
                rows@,
                cols@,
            );
        }
        g = g + 1;
    }
    let rows = db_positions(db_txs, None);
    let cols = chain_positions(chain_payments, None);
    match_no_memo_records(&rows, &cols, db_txs, chain_payments, &mut acc);
    let generated_at = unix_time_micros();
    ReconciliationReport {
        generated_at,
        period_start,
        period_end,
        total_db_transactions: db_txs.len(),
        total_chain_payments: chain_payments.len(),
        matched_count: acc.matched_count,
        missing_on_chain: acc.missing_on_chain,
        orphaned_payments: acc.orphaned_payments,
        amount_mismatches: acc.amount_mismatches,
        ambiguous_db: acc.ambiguous_db,
        ambiguous_chain: acc.ambiguous_chain,
        unmatched_no_memo_db: acc.unmatched_no_memo_db,
        unmatched_no_memo_chain: acc.unmatched_no_memo_chain,
    }
}

/// A payment record of a page of Horizon's payments listing for an
/// account, oldest first. `created_at` is the record's creation time as
/// Horizon writes it, when present.
#[derive(Debug)]
pub struct HorizonPaymentRecord {
    pub id: String,
    pub from: String,
    pub to: String,
    pub amount: String,
    pub asset_code: String,
    pub memo: Option<String>,
    pub created_at: Option<String>,
}

/// An instant given as seconds and nanoseconds, in nanoseconds.
pub open spec fn instant_nanos(i: (i64, u32)) -> int {
    i.0 * 1_000_000_000 + i.1
}

/// Whether a record stamped `stamp` was created after the window ending at
/// `end` (microseconds). A record without a readable stamp is not.
pub open spec fn after_window(stamp: Option<(i64, u32)>, end: i64) -> bool {
    stamp matches Some(i) && instant_nanos(i) > end * 1000
}

/// Whether a record stamped `stamp` was created before the window starting
/// at `start` (microseconds). A record without a readable stamp is not.
pub open spec fn before_window(stamp: Option<(i64, u32)>, start: i64) -> bool {
    stamp matches Some(i) && instant_nanos(i) < start * 1000
}

/// The chain payment that a record describes.
pub open spec fn payment_of(r: HorizonPaymentRecord) -> ChainPayment {
    ChainPayment {
        id: r.id,
        from: r.from,
        to: r.to,
        amount: r.amount,
        asset_code: r.asset_code,
        memo: r.memo,
    }
}

/// The payments kept from the first `n` records of a page, each stamped by
/// `stamps`: those not created before the window start.
pub open spec fn kept_payments(
    recs: Seq<HorizonPaymentRecord>,
    stamps: Seq<Option<(i64, u32)>>,
    start: i64,
    n: nat,
) -> Seq<ChainPayment>
    decreases n,
{
    if n == 0 {
        seq![]
    } else {
        let prev = kept_payments(recs, stamps, start, (n - 1) as nat);
        if before_window(stamps[n - 1], start) {
            prev
        } else {
            prev.push(payment_of(recs[n - 1]))
        }
    }
}

/// The stamp of a record: its creation time as `chrono` reads it.
pub open spec fn record_stamp(r: HorizonPaymentRecord) -> Option<(i64, u32)> {
    match r.created_at {
        Some(s) => parsed_instant(s@),
        None => None,
    }
}

/// The stamps of the records of a page.
pub open spec fn record_stamps(recs: Seq<HorizonPaymentRecord>) -> Seq<Option<(i64, u32)>> {
    recs.map_values(|r: HorizonPaymentRecord| record_stamp(r))
}

fn is_after(stamp: Option<(i64, u32)>, end: i64) -> (b: bool)
    ensures
        b == after_window(stamp, end),
{
    match stamp {
        Some((secs, nanos)) => (secs as i128) * 1_000_000_000 + (nanos as i128) > (end as i128) * 1000,
        None => false,
    }
}

fn is_before(stamp: Option<(i64, u32)>, start: i64) -> (b: bool)
    ensures
        b == before_window(stamp, start),
{
    match stamp {
        Some((secs, nanos)) => (secs as i128) * 1_000_000_000 + (nanos as i128) < (start as i128) * 1000,
        None => false,
    }
}

fn copy_payment(r: &HorizonPaymentRecord) -> (p: ChainPayment)
    ensures
        p == payment_of(*r),
{
    let memo = match &r.memo {
        Some(m) => Some(m.clone()),
        None => None,
    };
    ChainPayment {
        id: r.id.clone(),
        from: r.from.clone(),
        to: r.to.clone(),
        amount: r.amount.clone(),
        asset_code: r.asset_code.clone(),
        memo,
    }
}

/// Takes one page of an account's payments, stamped by `stamps`, into
/// `payments` for the window `start..=end` (microseconds), and says where
/// the listing goes on. Records are read in order; those created before the
/// window are skipped, and the first one created after it ends the listing
/// with it left out. Records without a stamp are kept. The listing goes on
/// at `next_url` unless the page is empty, ended the listing, or has no
/// next link.
pub fn collect_payment_page_with(
    records: &Vec<HorizonPaymentRecord>,
    stamps: &Vec<Option<(i64, u32)>>,
    next_url: Option<String>,
    start: i64,
    end: i64,
    payments: &mut Vec<ChainPayment>,
) -> (next: Option<String>)
    requires
        stamps@.len() == records@.len(),
    ensures
        (forall|j: int| 0 <= j < records@.len() ==> !#[trigger] after_window(stamps@[j], end)) ==> {
            &&& final(payments)@ == old(payments)@ + kept_payments(
                records@,
                stamps@,
                start,
                records@.len(),
            )
            &&& next == (if records@.len() == 0 { None } else { next_url })
        },
        forall|i: int|
            0 <= i < records@.len() && #[trigger] after_window(stamps@[i], end) && (forall|j: int|
                0 <= j < i ==> !after_window(stamps@[j], end)) ==> {
                &&& final(payments)@ == old(payments)@ + kept_payments(
                    records@,
                    stamps@,
                    start,
                    i as nat,
                )
                &&& next is None
            },
{
    let cut = first_after(stamps, end);
    let ghost base = payments@;
    let mut i: usize = 0;
    while i < cut
        invariant
            stamps@.len() == records@.len(),
            cut <= records@.len(),
            i <= cut,
            payments@ == base + kept_payments(records@, stamps@, start, i as nat),
        decreases cut - i,
    {
        if !is_before(stamps[i], start) {
            let p = copy_payment(&records[i]);
            payments.push(p);
        }
        i = i + 1;
        assert(payments@ =~= base + kept_payments(records@, stamps@, start, i as nat));
    }
    proof {
        assert forall|k: int|
            0 <= k < records@.len() && #[trigger] after_window(stamps@[k], end) && (forall|j: int|
                0 <= j < k ==> !after_window(stamps@[j], end)) implies k == cut by {
            if k > cut {
                assert(after_window(stamps@[cut as int], end));
            }
        }
    }
    if cut < records.len() || records.len() == 0 {
        None
    } else {
        next_url
    }
}

/// The position of the first record stamped after the window ending at
/// `end`, or the number of records when there is none.
fn first_after(stamps: &Vec<Option<(i64, u32)>>, end: i64) -> (c: usize)
    ensures
        c <= stamps@.len(),
        forall|j: int| 0 <= j < c ==> !#[trigger] after_window(stamps@[j], end),
        c < stamps@.len() ==> after_window(stamps@[c as int], end),
{
    let mut i: usize = 0;
    while i < stamps.len()
        invariant
            i <= stamps@.len(),
            forall|j: int| 0 <= j < i ==> !#[trigger] after_window(stamps@[j], end),
        decreases stamps@.len() - i,
    {
        if is_after(stamps[i], end) {
            return i;
        }
        i = i + 1;
    }
    i
}

/// The stamps of the records of a page, read through `chrono`.
pub fn stamps_of(records: &Vec<HorizonPaymentRecord>) -> (stamps: Vec<Option<(i64, u32)>>)
    ensures
        stamps@ == record_stamps(records@),
{
    let mut stamps: Vec<Option<(i64, u32)>> = Vec::new();
    let mut i: usize = 0;
    while i < records.len()
        invariant
            i <= records@.len(),
            stamps@ == record_stamps(records@).subrange(0, i as int),
        decreases records@.len() - i,
    {
        let stamp = match &records[i].created_at {
            Some(s) => parse_instant(s.as_str()),
            None => None,
        };
        stamps.push(stamp);
        i = i + 1;
        assert(stamps@ =~= record_stamps(records@).subrange(0, i as int));
    }
    assert(record_stamps(records@).subrange(0, i as int) =~= record_stamps(records@));
    stamps
}

/// Takes one page of an account's payments into `payments`, as
/// [`collect_payment_page_with`] does, with each record stamped by its
/// creation time as `chrono` reads it.
pub fn collect_payment_page(
    records: &Vec<HorizonPaymentRecord>,
    next_url: Option<String>,
    start: i64,
    end: i64,
    payments: &mut Vec<ChainPayment>,
) -> (next: Option<String>)
    ensures
        (forall|j: int|
            0 <= j < records@.len() ==> !#[trigger] after_window(record_stamps(records@)[j], end)) ==> {
            &&& final(payments)@ == old(payments)@ + kept_payments(
                records@,
                record_stamps(records@),
                start,
                records@.len(),
            )
            &&& next == (if records@.len() == 0 { None } else { next_url })
        },
        forall|i: int|
            0 <= i < records@.len() && #[trigger] after_window(record_stamps(records@)[i], end) && (forall|j: int|
                0 <= j < i ==> !after_window(record_stamps(records@)[j], end)) ==> {
                &&& final(payments)@ == old(payments)@ + kept_payments(
                    records@,
                    record_stamps(records@),
                    start,
                    i as nat,
                )
                &&& next is None
            },
{
    let stamps = stamps_of(records);
    collect_payment_page_with(records, &stamps, next_url, start, end, payments)
}

} // verus!
