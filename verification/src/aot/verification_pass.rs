//! The checks that a pack has to pass.

use crate::aot::types::{PruningPlan, QualityBudget, VerificationCheck, VerificationPlan};
use crate::ieee;
use vstd::arithmetic::power2::*;
use vstd::prelude::*;

verus! {

/// What a check says.
#[verifier::ext_equal]
pub struct CheckFacts {
    pub kind: Seq<char>,
    pub prompt: Option<Seq<char>>,
    pub max_tokens: Option<u32>,
    pub required_cosine: Option<u64>,
    pub max_allowed: Option<u64>,
}

/// What a check says.
pub open spec fn check_facts(c: VerificationCheck) -> CheckFacts {
    CheckFacts {
        kind: c.kind@,
        prompt: match c.prompt {
            Some(p) => Some(p@),
            None => None,
        },
        max_tokens: c.max_tokens,
        required_cosine: c.required_cosine,
        max_allowed: c.max_allowed,
    }
}

/// The bit pattern of the similarity that layer traces must have: 0.999.
pub const REQUIRED_COSINE: u64 = 0x3fef_f7ce_d916_872b;

/// A limit on some loss.
pub open spec fn loss_check(kind: Seq<char>, most: u64) -> CheckFacts {
    CheckFacts {
        kind,
        prompt: None,
        max_tokens: None,
        required_cosine: None,
        max_allowed: Some(most),
    }
}

/// The checks of every plan.
pub open spec fn basic_checks(budget: QualityBudget) -> Seq<CheckFacts> {
    seq![
        CheckFacts {
            kind: "smoke_generation"@,
            prompt: Some("The capital of France is"@),
            max_tokens: Some(25),
            required_cosine: None,
            max_allowed: None,
        },
        CheckFacts {
            kind: "oracle_layer_trace"@,
            prompt: None,
            max_tokens: None,
            required_cosine: Some(REQUIRED_COSINE),
            max_allowed: None,
        },
        loss_check("routing_mass_loss"@, budget.spec_mass_loss_threshold()),
    ]
}

/// The checks of a plan: where something is compressed or pruned, the estimated
/// loss must hold too.
pub open spec fn checks_of(budget: QualityBudget, pruning: PruningPlan) -> Seq<CheckFacts> {
    if pruning.summary.prune_candidate_count > 0 || pruning.summary.compress_count > 0 {
        basic_checks(budget).push(
            loss_check(
                "pruning_mass_loss_budget"@,
                pruning.summary.estimated_routing_mass_loss,
            ),
        )
    } else {
        basic_checks(budget)
    }
}

fn limit(kind: &str, most: u64) -> (c: VerificationCheck)
    ensures
        check_facts(c) == loss_check(kind@, most),
{
    VerificationCheck {
        kind: kind.to_owned(),
        prompt: None,
        max_tokens: None,
        required_cosine: None,
        max_allowed: Some(most),
    }
}

/// The checks that a pack has to pass, by its budget and pruning plan.
pub fn run(quality_budget: &QualityBudget, pruning: &PruningPlan) -> (p: VerificationPlan)
    ensures
        p.schema_version == 1,
        p.checks@.map_values(|c: VerificationCheck| check_facts(c)) == checks_of(
            *quality_budget,
            *pruning,
        ),
{
    let mut checks: Vec<VerificationCheck> = Vec::new();
    checks.push(
        VerificationCheck {
            kind: "smoke_generation".to_owned(),
            prompt: Some("The capital of France is".to_owned()),
            max_tokens: Some(25),
            required_cosine: None,
            max_allowed: None,
        },
    );
    checks.push(
        VerificationCheck {
            kind: "oracle_layer_trace".to_owned(),
            prompt: None,
            max_tokens: None,
            required_cosine: Some(REQUIRED_COSINE),
            max_allowed: None,
        },
    );
    checks.push(limit("routing_mass_loss", quality_budget.mass_loss_threshold()));
    assert(checks@.map_values(|c: VerificationCheck| check_facts(c)) == basic_checks(
        *quality_budget,
    ));
    if pruning.summary.prune_candidate_count > 0 || pruning.summary.compress_count > 0 {
        checks.push(
            limit(
                "pruning_mass_loss_budget",
                pruning.summary.estimated_routing_mass_loss,
            ),
        );
        assert(checks@.map_values(|c: VerificationCheck| check_facts(c)) == checks_of(
            *quality_budget,
            *pruning,
        ));
    }
    VerificationPlan { schema_version: 1, checks }
}

/// Every plan generates text, compares layer traces and limits the routing loss.
pub proof fn basic_checks_are_there(budget: QualityBudget, pruning: PruningPlan)
    ensures
        checks_of(budget, pruning).len() >= 3,
        checks_of(budget, pruning)[0].kind == "smoke_generation"@,
        checks_of(budget, pruning)[1].kind == "oracle_layer_trace"@,
        checks_of(budget, pruning)[2].kind == "routing_mass_loss"@,
{
}

/// The plan limits the routing loss to what the budget lets go, and asks layer
/// traces for a similarity of 0.999. Nothing else of a plan has these limits.
pub proof fn limits_are_those_of_the_budget(budget: QualityBudget, pruning: PruningPlan)
    ensures
        ({
            let checks = checks_of(budget, pruning);
            &&& checks[2].max_allowed == Some(budget.spec_mass_loss_threshold())
            &&& checks[1].required_cosine matches Some(c) && ieee::nearest64(c, 999, 1000)
            &&& checks[0].max_tokens matches Some(n) && n > 0
            &&& forall|i: int|
                0 <= i < checks.len() ==> ((#[trigger] checks[i]).prompt is Some <==> i == 0) && (
                checks[i].max_tokens is Some <==> i == 0) && (checks[i].required_cosine is Some
                    <==> i == 1) && (checks[i].max_allowed is Some <==> i >= 2)
        }),
{
    lemma2_to64_rest();
}

/// The estimated loss is checked exactly where the plan compresses or prunes
/// something, and then it may not be above the estimate.
pub proof fn changed_weights_are_checked(budget: QualityBudget, pruning: PruningPlan)
    ensures
        ({
            let checks = checks_of(budget, pruning);
            let changes = pruning.summary.compress_count + pruning.summary.prune_candidate_count;
            &&& checks.len() == if changes > 0 {
                4nat
            } else {
                3
            }
            &&& changes > 0 ==> checks[3].kind == "pruning_mass_loss_budget"@
                && checks[3].max_allowed == Some(pruning.summary.estimated_routing_mass_loss)
        }),
{
}

} // verus!
