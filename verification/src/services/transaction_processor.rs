//! The transaction pipeline: which stages run, and what the validation
//! stage requires.

use vstd::prelude::*;

use crate::text::{concat, owned, str_eq};

verus! {

/// The stages a transaction goes through.
#[derive(Debug, Clone, Copy, PartialEq, Eq, Structural)]
pub enum Stage {
    Validate,
    Enrich,
    Verify,
    Complete,
}

/// The stage that checks a transaction is pending.
#[derive(Debug, Clone, Copy)]
pub struct ValidateStage;

/// The stage that enriches a transaction (behind a feature flag).
#[derive(Debug, Clone, Copy)]
pub struct EnrichStage;

/// The stage that verifies a transaction (behind a feature flag).
#[derive(Debug, Clone, Copy)]
pub struct VerifyStage;

/// The name of a stage.
pub open spec fn stage_name(s: Stage) -> Seq<char> {
    match s {
        Stage::Validate => "validate"@,
        Stage::Enrich => "enrich"@,
        Stage::Verify => "verify"@,
        Stage::Complete => "complete"@,
    }
}

/// The name of stage `s`.
pub fn name_of(s: Stage) -> (n: &'static str)
    ensures
        n@ == stage_name(s),
{
    match s {
        Stage::Validate => "validate",
        Stage::Enrich => "enrich",
        Stage::Verify => "verify",
        Stage::Complete => "complete",
    }
}

impl ValidateStage {
    /// `validate`.
    pub fn name(&self) -> (n: &'static str)
        ensures
            n@ == "validate"@,
    {
        "validate"
    }

    /// Passes a transaction in status `status` only when it is pending.
    pub fn check(&self, status: &str) -> (r: Result<(), String>)
        ensures
            status@ == "pending"@ ==> r is Ok,
            status@ != "pending"@ ==> (r matches Err(e) && e@ == "Transaction is not in pending status"@),
    {
        if str_eq(status, "pending") {
            Ok(())
        } else {
            Err(owned("Transaction is not in pending status"))
        }
    }
}

impl EnrichStage {
    /// `enrich`.
    pub fn name(&self) -> (n: &'static str)
        ensures
            n@ == "enrich"@,
    {
        "enrich"
    }
}

impl VerifyStage {
    /// `verify`.
    pub fn name(&self) -> (n: &'static str)
        ensures
            n@ == "verify"@,
    {
        "verify"
    }
}

/// The pipeline: validation always, then enrichment and verification when
/// their flags are on, then completion always.
pub open spec fn pipeline_spec(enrich: bool, verify: bool) -> Seq<Stage> {
    let a = seq![Stage::Validate];
    let b = if enrich { a.push(Stage::Enrich) } else { a };
    let c = if verify { b.push(Stage::Verify) } else { b };
    c.push(Stage::Complete)
}

/// The stages to run, in order (see [`pipeline_spec`]).
pub fn pipeline(enrich_enabled: bool, verify_enabled: bool) -> (v: Vec<Stage>)
    ensures
        v@ == pipeline_spec(enrich_enabled, verify_enabled),
{
    let mut v: Vec<Stage> = Vec::new();
    v.push(Stage::Validate);
    if enrich_enabled {
        v.push(Stage::Enrich);
    }
    if verify_enabled {
        v.push(Stage::Verify);
    }
    v.push(Stage::Complete);
    v
}

/// Why a failed transaction was moved to the dead-letter queue.
pub fn dlq_reason(stage: Stage, error: &str) -> (r: String)
    ensures
        r@ == stage_name(stage) + " stage failed: "@ + error@,
{
    let a = concat(name_of(stage), " stage failed: ");
    concat(a.as_str(), error)
}

/// What the pipeline runner does after a stage has run.
#[derive(Debug, Clone, PartialEq, Eq)]
pub enum PipelineStep {
    /// Run this stage next.
    Run(Stage),
    /// Every stage succeeded.
    Finished,
    /// The stage failed: move the transaction to the dead-letter queue with
    /// this reason, and stop with the stage's error.
    DeadLetter(String),
}

/// The runner's decision once stage `i` of `stages` has run with
/// `outcome`: the first failure stops the pipeline and dead-letters the
/// transaction; a success runs the next stage, or finishes after the last.
pub fn after_stage(stages: &Vec<Stage>, i: usize, outcome: Result<(), &str>) -> (step: PipelineStep)
    requires
        i < stages@.len(),
    ensures
        match outcome {
            Err(e) => step matches PipelineStep::DeadLetter(r) && r@ == stage_name(stages@[i as int]) + " stage failed: "@
                + e@,
            Ok(()) => if i + 1 < stages@.len() {
                step == PipelineStep::Run(stages@[i + 1])
            } else {
                step == PipelineStep::Finished
            },
        },
{
    match outcome {
        Err(e) => PipelineStep::DeadLetter(dlq_reason(stages[i], e)),
        Ok(()) => {
            if i < stages.len() - 1 {
                PipelineStep::Run(stages[i + 1])
            } else {
                PipelineStep::Finished
            }
        },
    }
}

} // verus!
