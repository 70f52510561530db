//! The transaction status state machine.

use vstd::prelude::*;

use crate::error::AppError;
use crate::text::concat;
use crate::validation::state_transitions::{
    allows, is_valid_transition, transaction_table, transaction_transitions,
};

verus! {

/// The detail of a refused transition.
pub open spec fn transition_refusal(from: Seq<char>, to: Seq<char>) -> Seq<char> {
    "Cannot transition from '"@ + from + "' to '"@ + to + "'"@
}

/// Accepts a transaction status change allowed by the transaction
/// lifecycle (a change to the same status always is); refuses any other
/// with [`AppError::InvalidStatusTransition`].
pub fn validate_status_transition(from: &str, to: &str) -> (r: Result<(), AppError>)
    ensures
        allows(from@, to@, transaction_table()) ==> r is Ok,
        !allows(from@, to@, transaction_table()) ==> (r matches Err(AppError::InvalidStatusTransition(d))
            && d@ == transition_refusal(from@, to@)),
{
    let table = transaction_transitions();
    if is_valid_transition(from, to, table.as_slice()) {
        Ok(())
    } else {
        let a = concat("Cannot transition from '", from);
        let b = concat(a.as_str(), "' to '");
        let c = concat(b.as_str(), to);
        Err(AppError::InvalidStatusTransition(concat(c.as_str(), "'")))
    }
}

} // verus!
