//! Matching of incoming payments to pending transactions.

use vstd::prelude::*;

use crate::text::{concat, owned, str_eq};

verus! {

/// A payment observed on the monitored account.
#[derive(Debug, Clone)]
pub struct Payment {
    pub id: String,
    pub from: String,
    pub to: String,
    pub amount: String,
    pub asset_code: String,
    pub memo: Option<String>,
    pub memo_type: Option<String>,
}

/// Why a payment does not settle the pending transaction its memo names.
pub open spec fn mismatch(p: Payment, expected_account: Seq<char>, expected_asset: Seq<char>) -> Option<
    Seq<char>,
> {
    if p.to@ != expected_account {
        Some("Payment destination "@ + p.to@ + " does not match transaction account "@ + expected_account)
    } else if p.asset_code@ != expected_asset {
        Some("Payment asset "@ + p.asset_code@ + " does not match transaction asset "@ + expected_asset)
    } else {
        None
    }
}

/// Checks that a payment goes to the transaction's account in the
/// transaction's asset (the amount is compared by the caller).
pub fn check_destination_and_asset(p: &Payment, expected_account: &str, expected_asset: &str) -> (r: Result<
    (),
    String,
>)
    ensures
        match mismatch(*p, expected_account@, expected_asset@) {
            None => r is Ok,
            Some(m) => r matches Err(e) && e@ == m,
        },
{
    if !str_eq(p.to.as_str(), expected_account) {
        let a = concat("Payment destination ", p.to.as_str());
        let b = concat(a.as_str(), " does not match transaction account ");
        return Err(concat(b.as_str(), expected_account));
    }
    if !str_eq(p.asset_code.as_str(), expected_asset) {
        let a = concat("Payment asset ", p.asset_code.as_str());
        let b = concat(a.as_str(), " does not match transaction asset ");
        return Err(concat(b.as_str(), expected_asset));
    }
    Ok(())
}

/// A payment without a memo cannot be matched.
pub fn check_memo(p: &Payment) -> (r: Result<(), String>)
    ensures
        p.memo is Some ==> r is Ok,
        p.memo is None ==> (r matches Err(e) && e@ == "Payment "@ + p.id@ + " has no memo"@),
{
    match &p.memo {
        Some(_) => Ok(()),
        None => {
            let a = concat("Payment ", p.id.as_str());
            Err(concat(a.as_str(), " has no memo"))
        },
    }
}

/// What processing a payment does next.
#[derive(Debug, Clone, PartialEq, Eq)]
pub enum PaymentStep {
    /// The payment was already recorded: nothing to do.
    Skip,
    /// Look up the pending transaction its memo names.
    LookUpPending,
    /// Compare the paid amount with the transaction's (at least as much
    /// must be paid), then complete the transaction.
    CheckAmount,
    /// The payment cannot settle a transaction, for this reason.
    Fail(String),
}

/// The first decision on a payment, once it is known whether a transaction
/// already records it: an already recorded payment is skipped; one without
/// a memo fails; any other goes on to the lookup of its transaction.
pub fn payment_first_step(already_processed: bool, p: &Payment) -> (s: PaymentStep)
    ensures
        already_processed ==> s == PaymentStep::Skip,
        !already_processed && p.memo is None ==> (s matches PaymentStep::Fail(e) && e@ == "Payment "@ + p.id@
            + " has no memo"@),
        !already_processed && p.memo is Some ==> s == PaymentStep::LookUpPending,
{
    if already_processed {
        return PaymentStep::Skip;
    }
    match check_memo(p) {
        Ok(()) => PaymentStep::LookUpPending,
        Err(e) => PaymentStep::Fail(e),
    }
}

/// The decision once the pending transaction named by the payment's memo
/// has been looked up, given its account and asset code: none found
/// fails; a payment to another account or in another asset fails (see
/// [`mismatch`]); else the amounts are compared.
pub fn payment_after_lookup(p: &Payment, pending: Option<(&str, &str)>) -> (s: PaymentStep)
    requires
        p.memo is Some,
    ensures
        pending is None ==> (s matches PaymentStep::Fail(e) && e@ == "No pending transaction found with memo "@
            + p.memo->0@),
        pending matches Some((account, asset)) ==> match mismatch(*p, account@, asset@) {
            Some(m) => s matches PaymentStep::Fail(e) && e@ == m,
            None => s == PaymentStep::CheckAmount,
        },
{
    match pending {
        None => {
            let memo = match &p.memo {
                Some(m) => m.as_str(),
                None => "",
            };
            PaymentStep::Fail(concat("No pending transaction found with memo ", memo))
        },
        Some((account, asset)) => match check_destination_and_asset(p, account, asset) {
            Ok(()) => PaymentStep::CheckAmount,
            Err(e) => PaymentStep::Fail(e),
        },
    }
}

/// The address of the page of an account's payments, oldest first, 200 at
/// a time, that starts after `cursor` when one is given.
pub fn payments_url(base: &str, account: &str, cursor: Option<&str>) -> (u: String)
    ensures
        u@ == crate::text::trim_trailing_slashes(base@) + "/accounts/"@ + account@
            + "/payments?order=asc&limit=200"@ + match cursor {
            Some(c) => "&cursor="@ + c@,
            None => Seq::<char>::empty(),
        },
{
    let b = crate::text::without_trailing_slashes(base);
    let a = crate::text::concat(b.as_str(), "/accounts/");
    let a = crate::text::concat(a.as_str(), account);
    let a = crate::text::concat(a.as_str(), "/payments?order=asc&limit=200");
    match cursor {
        Some(c) => {
            let a = crate::text::concat(a.as_str(), "&cursor=");
            crate::text::concat(a.as_str(), c)
        },
        None => {
            assert(a@ + Seq::<char>::empty() =~= a@);
            a
        },
    }
}

/// The identifier of the last payment among the first `n` that was
/// processed, if any.
pub open spec fn last_processed(ids: Seq<Seq<char>>, processed: Seq<bool>, n: nat) -> Option<Seq<char>>
    decreases n,
{
    if n == 0 {
        None
    } else if processed[n - 1] {
        Some(ids[n - 1])
    } else {
        last_processed(ids, processed, (n - 1) as nat)
    }
}

/// Where a monitored account's cursor moves after a round: to the last
/// payment of the round that was processed; it stays put when none was.
/// `processed[i]` says whether the payment `ids[i]` was processed.
pub fn cursor_after_round(ids: &Vec<String>, processed: &Vec<bool>) -> (c: Option<String>)
    requires
        ids@.len() == processed@.len(),
    ensures
        match last_processed(ids@.map_values(|s: String| s@), processed@, ids@.len()) {
            Some(t) => c matches Some(s) && s@ == t,
            None => c is None,
        },
{
    let mut last: Option<String> = None;
    let mut i: usize = 0;
    while i < ids.len()
        invariant
            ids@.len() == processed@.len(),
            i <= ids@.len(),
            match last_processed(ids@.map_values(|s: String| s@), processed@, i as nat) {
                Some(t) => last matches Some(s) && s@ == t,
                None => last is None,
            },
        decreases ids@.len() - i,
    {
        if processed[i] {
            last = Some(ids[i].clone());
        }
        i = i + 1;
    }
    last
}

/// What the streaming loop does with one item of the payment stream.
#[derive(Debug, Clone, PartialEq, Eq)]
pub enum StreamAction {
    /// The payment was processed: persist its identifier as the cursor.
    SaveCursor(String),
    /// The payment could not be processed: route it to the dead-letter
    /// queue, leaving the cursor where it is.
    RouteToDlq,
    /// The stream failed: stop streaming and fall back to polling.
    FallBackToPolling,
}

/// The streaming loop's decision for one stream item: `None` for a stream
/// error, else the payment's identifier and whether processing it
/// succeeded.
pub fn stream_action(item: Option<(&str, bool)>) -> (a: StreamAction)
    ensures
        match item {
            None => a == StreamAction::FallBackToPolling,
            Some((id, true)) => a matches StreamAction::SaveCursor(c) && c@ == id@,
            Some((_, false)) => a == StreamAction::RouteToDlq,
        },
{
    match item {
        None => StreamAction::FallBackToPolling,
        Some((id, processed)) => {
            if processed {
                StreamAction::SaveCursor(owned(id))
            } else {
                StreamAction::RouteToDlq
            }
        },
    }
}

} // verus!
