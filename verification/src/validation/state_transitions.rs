//! Declarative state-transition tables. A transition from a state to itself
//! is always allowed.

use vstd::prelude::*;

use crate::text::str_eq;

verus! {

/// One allowed transition.
#[derive(Debug, Clone, Copy, PartialEq, Eq, Hash)]
pub struct Transition {
    pub from: &'static str,
    pub to: &'static str,
}

/// A transition's two states, as text.
pub open spec fn transition_view(t: Transition) -> (Seq<char>, Seq<char>) {
    (t.from@, t.to@)
}

/// The texts of a table of transitions.
pub open spec fn table_view(table: Seq<Transition>) -> Seq<(Seq<char>, Seq<char>)> {
    table.map_values(|t: Transition| transition_view(t))
}

/// The transaction lifecycle: pending → processing → completed or failed,
/// failed and dlq back to pending.
pub open spec fn transaction_table() -> Seq<(Seq<char>, Seq<char>)> {
    seq![
        ("pending"@, "processing"@),
        ("pending"@, "completed"@),
        ("pending"@, "failed"@),
        ("processing"@, "completed"@),
        ("processing"@, "failed"@),
        ("failed"@, "pending"@),
        ("dlq"@, "pending"@),
    ]
}

/// The settlement lifecycle: completed → pending_review → disputed →
/// adjusted → completed, with voiding from review or dispute.
pub open spec fn settlement_table() -> Seq<(Seq<char>, Seq<char>)> {
    seq![
        ("completed"@, "pending_review"@),
        ("pending_review"@, "disputed"@),
        ("pending_review"@, "voided"@),
        ("pending_review"@, "completed"@),
        ("disputed"@, "adjusted"@),
        ("disputed"@, "voided"@),
        ("adjusted"@, "completed"@),
    ]
}

fn t(from: &'static str, to: &'static str) -> (r: Transition)
    ensures
        transition_view(r) == (from@, to@),
{
    Transition { from, to }
}

/// The transitions of the transaction lifecycle.
pub fn transaction_transitions() -> (v: Vec<Transition>)
    ensures
        table_view(v@) == transaction_table(),
{
    let v = vec![
        t("pending", "processing"),
        t("pending", "completed"),
        t("pending", "failed"),
        t("processing", "completed"),
        t("processing", "failed"),
        t("failed", "pending"),
        t("dlq", "pending"),
    ];
    assert(table_view(v@) =~= transaction_table());
    v
}

/// The transitions of the settlement lifecycle.
pub fn settlement_transitions() -> (v: Vec<Transition>)
    ensures
        table_view(v@) == settlement_table(),
{
    let v = vec![
        t("completed", "pending_review"),
        t("pending_review", "disputed"),
        t("pending_review", "voided"),
        t("pending_review", "completed"),
        t("disputed", "adjusted"),
        t("disputed", "voided"),
        t("adjusted", "completed"),
    ];
    assert(table_view(v@) =~= settlement_table());
    v
}

/// `from` may move to `to` under `table`: the same state, or a listed pair.
pub open spec fn allows(from: Seq<char>, to: Seq<char>, table: Seq<(Seq<char>, Seq<char>)>) -> bool {
    from == to || table.contains((from, to))
}

/// Whether `allowed` permits moving from `from` to `to`; moving to the same
/// state is always permitted.
pub fn is_valid_transition(from: &str, to: &str, allowed: &[Transition]) -> (r: bool)
    ensures
        r == allows(from@, to@, table_view(allowed@)),
{
    if str_eq(from, to) {
        return true;
    }
    let mut i: usize = 0;
    while i < allowed.len()
        invariant
            i <= allowed.len(),
            forall|j: int| 0 <= j < i ==> transition_view(#[trigger] allowed@[j]) != (from@, to@),
        decreases allowed.len() - i,
    {
        if str_eq(allowed[i].from, from) && str_eq(allowed[i].to, to) {
            proof {
                assert(table_view(allowed@)[i as int] == (from@, to@));
            }
            return true;
        }
        i = i + 1;
    }
    proof {
        if table_view(allowed@).contains((from@, to@)) {
            let j = choose|j: int| 0 <= j < table_view(allowed@).len() && table_view(allowed@)[j] == (from@, to@);
            assert(transition_view(allowed@[j]) == (from@, to@));
        }
    }
    false
}

/// Moving to the same state is always allowed, whatever the table.
pub proof fn lemma_same_state_allowed(state: Seq<char>, table: Seq<(Seq<char>, Seq<char>)>)
    ensures
        allows(state, state, table),
{
}

/// Whether no pair occurs twice in a table.
pub open spec fn no_repeats(table: Seq<(Seq<char>, Seq<char>)>) -> bool {
    forall|i: int, j: int| 0 <= i < j < table.len() ==> table[i] != table[j]
}

/// Neither lifecycle lists a transition twice.
pub proof fn lemma_tables_have_no_repeats()
    ensures
        no_repeats(transaction_table()),
        no_repeats(settlement_table()),
{
    reveal_strlit("pending");
    reveal_strlit("processing");
    reveal_strlit("completed");
    reveal_strlit("failed");
    reveal_strlit("dlq");
    reveal_strlit("pending_review");
    reveal_strlit("disputed");
    reveal_strlit("voided");
    reveal_strlit("adjusted");
    let t = transaction_table();
    assert forall|i: int, j: int| 0 <= i < j < t.len() implies t[i] != t[j] by {
        if t[i] == t[j] {
            assert(t[i].0 == t[j].0 && t[i].1 == t[j].1);
            assert(t[i].0.len() == t[j].0.len() && t[i].1.len() == t[j].1.len());
            assert(t[i].1[0] == t[j].1[0]);
        }
    }
    let u = settlement_table();
    assert forall|i: int, j: int| 0 <= i < j < u.len() implies u[i] != u[j] by {
        if u[i] == u[j] {
            assert(u[i].0.len() == u[j].0.len() && u[i].1.len() == u[j].1.len());
            assert(u[i].0[0] == u[j].0[0] && u[i].1[0] == u[j].1[0]);
        }
    }
}

} // verus!
