//! What is to become of each expert: protected, kept, moved to the cold tier,
//! compressed or pruned.
//!
//! Experts are considered from the least important one on. The loss that
//! compressing an expert would cause is a product of fractions, which the caller
//! computes: a run asks for it, one expert after the other, and goes on with the
//! answer.

use crate::aot::phase_pass;
use crate::aot::types::{
    ExpertImportance, ExpertImportanceEntry, ExpertTier, PhasePolicy, PruningPlan,
    PruningPlanEntry, PruningPlanSummary, QualityBudget,
};
use crate::ieee;
use crate::rank;
use crate::text;
use vstd::arithmetic::power2::*;
use vstd::prelude::*;

verus! {

/// What is to become of an expert.
#[derive(Debug, Clone, Copy, PartialEq, Eq, Structural)]
pub enum PruneAction {
    Protect,
    Keep,
    ColdTier,
    Compress,
    PruneCandidate,
}

impl PruneAction {
    /// The action's name.
    pub open spec fn spec_name(self) -> Seq<char> {
        match self {
            PruneAction::Protect => "protect"@,
            PruneAction::Keep => "keep"@,
            PruneAction::ColdTier => "cold_tier"@,
            PruneAction::Compress => "compress"@,
            PruneAction::PruneCandidate => "prune_candidate"@,
        }
    }

    /// The action's name.
    pub fn name(&self) -> (s: &'static str)
        ensures
            s@ == self.spec_name(),
    {
        match self {
            PruneAction::Protect => "protect",
            PruneAction::Keep => "keep",
            PruneAction::ColdTier => "cold_tier",
            PruneAction::Compress => "compress",
            PruneAction::PruneCandidate => "prune_candidate",
        }
    }

    /// The weights of the expert are changed.
    pub open spec fn loses_mass(self) -> bool {
        self == PruneAction::Compress || self == PruneAction::PruneCandidate
    }
}

/// The bit pattern of the importance below which an expert may be pruned: 0.15.
pub const PRUNE_BELOW: u64 = 0x3fc3_3333_3333_3333;

/// The bit pattern of the share of experts that must have been seen for anything
/// to be pruned: 0.8.
pub const LEAST_COVERAGE: u64 = 0x3fe9_9999_9999_999a;

// ---------------------------------------------------------------------------
// Rules
// ---------------------------------------------------------------------------

/// What becomes of an expert whatever its loss is, and why.
pub open spec fn early(phase: Seq<char>, tier: ExpertTier, disabled: bool) -> Option<
    (PruneAction, Seq<char>),
> {
    if phase == "integrity_frontier"@ {
        Some((PruneAction::Protect, "integrity_frontier_protected"@))
    } else if tier == ExpertTier::Hot {
        Some((PruneAction::Keep, "hot_expert_kept"@))
    } else if phase == "steering"@ || phase == "projection"@ {
        if tier == ExpertTier::Warm {
            Some((PruneAction::Keep, "steering_warm_kept"@))
        } else {
            Some((PruneAction::ColdTier, "steering_cold_tier"@))
        }
    } else if disabled {
        Some((PruneAction::Keep, "pruning_disabled_low_coverage"@))
    } else if tier == ExpertTier::Warm {
        Some((PruneAction::Keep, "transport_warm_kept"@))
    } else {
        None
    }
}

/// An expert as the rules see it.
#[derive(Debug, Clone)]
pub struct PruneItem {
    pub layer: u32,
    pub expert: u32,
    pub tier: ExpertTier,
    pub phase: String,
    pub importance: u64,
    pub frequency: u64,
    pub avg_gate_weight: u64,
}

/// An expert as the rules see it.
#[verifier::ext_equal]
pub struct ItemFacts {
    pub layer: u32,
    pub expert: u32,
    pub tier: ExpertTier,
    pub phase: Seq<char>,
    pub importance: u64,
    pub frequency: u64,
    pub avg_gate_weight: u64,
}

/// An expert as the rules see it.
pub open spec fn item_facts(i: PruneItem) -> ItemFacts {
    ItemFacts {
        layer: i.layer,
        expert: i.expert,
        tier: i.tier,
        phase: i.phase@,
        importance: i.importance,
        frequency: i.frequency,
        avg_gate_weight: i.avg_gate_weight,
    }
}

/// What was decided about an expert.
#[verifier::ext_equal]
pub struct Verdict {
    pub layer: u32,
    pub expert: u32,
    pub action: PruneAction,
    pub target_format: Option<Seq<char>>,
    pub estimated_mass_loss: u64,
    pub reason: Seq<char>,
}

/// A verdict that changes no weights.
pub open spec fn untouched(i: ItemFacts, action: PruneAction, reason: Seq<char>) -> Verdict {
    Verdict {
        layer: i.layer,
        expert: i.expert,
        action,
        target_format: None,
        estimated_mass_loss: 0,
        reason,
    }
}

/// The verdict about a cold transport expert, given its loss and the loss of all
/// so far with it. Beyond the budget its weights stay; else it is compressed, or
/// pruned where it matters very little.
pub open spec fn late(i: ItemFacts, threshold: u64, mass: u64, sum: u64) -> Verdict {
    if ieee::less64(threshold, sum) {
        untouched(i, PruneAction::ColdTier, "mass_loss_budget_exceeded"@)
    } else if ieee::less64(i.importance, PRUNE_BELOW) {
        Verdict {
            layer: i.layer,
            expert: i.expert,
            action: PruneAction::PruneCandidate,
            target_format: Some("iq2"@),
            estimated_mass_loss: mass,
            reason: "cold_low_importance"@,
        }
    } else {
        Verdict {
            layer: i.layer,
            expert: i.expert,
            action: PruneAction::Compress,
            target_format: Some("iq3"@),
            estimated_mass_loss: mass,
            reason: "cold_moderate_importance"@,
        }
    }
}

/// The state of a run.
#[verifier::ext_equal]
pub struct PruneState {
    pub items: Seq<ItemFacts>,
    pub budget: QualityBudget,
    pub disabled: bool,
    pub cumulative: u64,
    pub done: Seq<Verdict>,
}

/// The state once the next expert has been decided without its loss.
pub open spec fn settle_one(s: PruneState) -> PruneState {
    let i = s.items[s.done.len() as int];
    let (action, reason) = early(i.phase, i.tier, s.disabled)->0;
    PruneState { done: s.done.push(untouched(i, action, reason)), ..s }
}

/// The next expert can be decided without its loss.
pub open spec fn settles(s: PruneState) -> bool {
    s.done.len() < s.items.len() && early(
        s.items[s.done.len() as int].phase,
        s.items[s.done.len() as int].tier,
        s.disabled,
    ) is Some
}

/// The state once all experts have been decided up to the next one whose loss is
/// wanted.
pub open spec fn settled(s: PruneState) -> PruneState
    decreases s.items.len() - s.done.len(),
{
    if settles(s) {
        settled(settle_one(s))
    } else {
        s
    }
}

/// The state once the next expert has been decided by its loss.
pub open spec fn decided(s: PruneState, mass: u64, sum: u64) -> PruneState {
    let v = late(
        s.items[s.done.len() as int],
        s.budget.spec_mass_loss_threshold(),
        mass,
        sum,
    );
    PruneState {
        done: s.done.push(v),
        cumulative: if v.action.loses_mass() {
            sum
        } else {
            s.cumulative
        },
        ..s
    }
}

/// The verdict follows the rules.
pub open spec fn follows_rules(i: ItemFacts, disabled: bool, threshold: u64, v: Verdict) -> bool {
    match early(i.phase, i.tier, disabled) {
        Some((action, reason)) => v == untouched(i, action, reason),
        None => exists|mass: u64, sum: u64| v == #[trigger] late(i, threshold, mass, sum),
    }
}

/// All verdicts follow the rules, and the loss so far is not above the budget.
pub open spec fn lawful(s: PruneState) -> bool {
    &&& s.done.len() <= s.items.len()
    &&& forall|k: int|
        0 <= k < s.done.len() ==> follows_rules(
            s.items[k],
            s.disabled,
            s.budget.spec_mass_loss_threshold(),
            #[trigger] s.done[k],
        )
    &&& !ieee::less64(s.budget.spec_mass_loss_threshold(), s.cumulative)
}

/// How many verdicts have the action.
pub open spec fn action_count(done: Seq<Verdict>, action: PruneAction) -> nat
    decreases done.len(),
{
    if done.len() == 0 {
        0
    } else {
        action_count(done.drop_last(), action) + if done.last().action == action {
            1nat
        } else {
            0
        }
    }
}

/// Every verdict counts once.
pub proof fn actions_add_up(done: Seq<Verdict>)
    ensures
        action_count(done, PruneAction::Protect) + action_count(done, PruneAction::Keep)
            + action_count(done, PruneAction::ColdTier) + action_count(done, PruneAction::Compress)
            + action_count(done, PruneAction::PruneCandidate) == done.len(),
    decreases done.len(),
{
    if done.len() > 0 {
        actions_add_up(done.drop_last());
    }
}

// ---------------------------------------------------------------------------
// Runs
// ---------------------------------------------------------------------------

/// A decision with its action.
#[derive(Debug, Clone)]
pub struct PruneDecision {
    pub action: PruneAction,
    pub entry: PruningPlanEntry,
}

/// What a decision says.
pub open spec fn decision_facts(d: PruneDecision) -> Verdict {
    Verdict {
        layer: d.entry.layer,
        expert: d.entry.expert,
        action: d.action,
        target_format: match d.entry.target_format {
            Some(f) => Some(f@),
            None => None,
        },
        estimated_mass_loss: d.entry.estimated_mass_loss,
        reason: d.entry.reason@,
    }
}

/// What decisions say.
pub open spec fn verdicts(ds: Seq<PruneDecision>) -> Seq<Verdict> {
    ds.map_values(|d: PruneDecision| decision_facts(d))
}

/// A pruning plan in the making.
pub struct PruningRun {
    pub items: Vec<PruneItem>,
    pub budget: QualityBudget,
    pub disabled: bool,
    pub cumulative: u64,
    pub done: Vec<PruneDecision>,
}

/// The fractions of which the loss of an expert is made.
#[derive(Debug, Clone, Copy, PartialEq, Eq, Structural)]
pub struct LossQuestion {
    pub frequency: u64,
    pub avg_gate_weight: u64,
    pub importance: u64,
    pub cumulative: u64,
}

/// The fractions of which the loss of the next expert is made.
pub open spec fn question(s: PruneState) -> Option<LossQuestion> {
    if s.done.len() < s.items.len() {
        let i = s.items[s.done.len() as int];
        Some(
            LossQuestion {
                frequency: i.frequency,
                avg_gate_weight: i.avg_gate_weight,
                importance: i.importance,
                cumulative: s.cumulative,
            },
        )
    } else {
        None
    }
}

impl View for PruningRun {
    type V = PruneState;

    open spec fn view(&self) -> PruneState {
        PruneState {
            items: self.items@.map_values(|i: PruneItem| item_facts(i)),
            budget: self.budget,
            disabled: self.disabled,
            cumulative: self.cumulative,
            done: verdicts(self.done@),
        }
    }
}

impl PruningRun {
    /// The names in the entries are those of the actions.
    pub open spec fn named(self) -> bool {
        forall|k: int|
            0 <= k < self.done@.len() ==> (#[trigger] self.done@[k]).entry.action@
                == self.done@[k].action.spec_name()
    }

    /// The run has kept to the rules so far.
    pub open spec fn wf(self) -> bool {
        self.named() && lawful(self@)
    }
}

/// An expert with the phase of its layer.
pub open spec fn placed(e: ExpertImportanceEntry, policy: PhasePolicy) -> ItemFacts {
    ItemFacts {
        layer: e.layer,
        expert: e.expert,
        tier: e.tier,
        phase: phase_pass::phase_in(policy, e.layer),
        importance: e.importance,
        frequency: e.frequency,
        avg_gate_weight: e.avg_gate_weight,
    }
}

/// The importance of each expert.
pub open spec fn importances(es: Seq<ExpertImportanceEntry>) -> Seq<u64> {
    es.map_values(|e: ExpertImportanceEntry| e.importance)
}

/// The items are the experts, the least important first. Experts of equal
/// importance keep their order.
pub open spec fn least_first(
    items: Seq<ItemFacts>,
    es: Seq<ExpertImportanceEntry>,
    policy: PhasePolicy,
) -> bool {
    exists|ids: Seq<usize>| #[trigger]
        rank::is_ascending(ids, importances(es)) && items == ids.map_values(
            |i: usize| placed(es[i as int], policy),
        )
}

fn decide_early(phase: &str, tier: &ExpertTier, disabled: bool) -> (d: Option<
    (PruneAction, &'static str),
>)
    ensures
        match (d, early(phase@, *tier, disabled)) {
            (Some((a, r)), Some((b, s))) => a == b && r@ == s,
            (None, None) => true,
            _ => false,
        },
{
    if text::text_eq(phase, "integrity_frontier") {
        return Some((PruneAction::Protect, "integrity_frontier_protected"));
    }
    if matches!(*tier, ExpertTier::Hot) {
        return Some((PruneAction::Keep, "hot_expert_kept"));
    }
    if text::text_eq(phase, "steering") || text::text_eq(phase, "projection") {
        if matches!(*tier, ExpertTier::Warm) {
            return Some((PruneAction::Keep, "steering_warm_kept"));
        }
        return Some((PruneAction::ColdTier, "steering_cold_tier"));
    }
    if disabled {
        return Some((PruneAction::Keep, "pruning_disabled_low_coverage"));
    }
    if matches!(*tier, ExpertTier::Warm) {
        return Some((PruneAction::Keep, "transport_warm_kept"));
    }
    None
}

impl PruningRun {
    /// Begins a plan. `importance_coverage` is the bit pattern of the share of
    /// experts that the calibration has seen: where it is low, nothing is pruned.
    pub fn start(
        importance: &ExpertImportance,
        phase_policy: &PhasePolicy,
        quality_budget: &QualityBudget,
        importance_coverage: u64,
    ) -> (r: PruningRun)
        requires
            rank::all_numbers64(importances(importance.experts@)),
        ensures
            r.wf(),
            least_first(r@.items, importance.experts@, *phase_policy),
            r@.budget == *quality_budget,
            r@.disabled == ieee::less64(importance_coverage, LEAST_COVERAGE),
            r@.cumulative == 0,
            r@.done.len() == 0,
    {
        let es = &importance.experts;
        let mut values: Vec<u64> = Vec::new();
        let mut i: usize = 0;
        while i < es.len()
            invariant
                i <= es@.len(),
                values@ == importances(es@).take(i as int),
            decreases es@.len() - i,
        {
            values.push(es[i].importance);
            assert(importances(es@).take(i + 1) == importances(es@).take(i as int).push(
                es@[i as int].importance,
            ));
            i = i + 1;
        }
        assert(importances(es@).take(i as int) == importances(es@));
        let ids = rank::ascending_order(values.as_slice());
        let ghost want = ids@.map_values(|i: usize| placed(es@[i as int], *phase_policy));
        let mut items: Vec<PruneItem> = Vec::new();
        let mut j: usize = 0;
        while j < ids.len()
            invariant
                j <= ids@.len(),
                rank::is_ascending(ids@, importances(es@)),
                want == ids@.map_values(|i: usize| placed(es@[i as int], *phase_policy)),
                items@.map_values(|i: PruneItem| item_facts(i)) == want.take(j as int),
            decreases ids@.len() - j,
        {
            assert(ids@[j as int] < importances(es@).len());
            let e = &es[ids[j]];
            let ghost was = items@;
            let item = PruneItem {
                layer: e.layer,
                expert: e.expert,
                tier: e.tier,
                phase: phase_pass::phase_for_layer(phase_policy, e.layer).to_owned(),
                importance: e.importance,
                frequency: e.frequency,
                avg_gate_weight: e.avg_gate_weight,
            };
            items.push(item);
            proof {
                assert(items@.map_values(|i: PruneItem| item_facts(i)) == was.map_values(
                    |i: PruneItem| item_facts(i),
                ).push(item_facts(item)));
                assert(want[j as int] == item_facts(item));
                assert(want.take(j + 1) == want.take(j as int).push(want[j as int]));
            }
            j = j + 1;
        }
        assert(want.take(j as int) == want);
        PruningRun {
            items,
            budget: *quality_budget,
            disabled: ieee::is_less64(importance_coverage, LEAST_COVERAGE),
            cumulative: 0,
            done: Vec::new(),
        }
    }

    /// Decides experts up to the next one whose loss is wanted.
    pub fn settle(&mut self)
        requires
            old(self).wf(),
        ensures
            final(self).wf(),
            final(self)@ == settled(old(self)@),
            !settles(final(self)@),
    {
        let ghost start = self@;
        loop
            invariant
                self.wf(),
                settled(start) == settled(self@),
            ensures
                self.wf(),
                settled(start) == self@,
                !settles(self@),
            decreases self.items@.len() - self.done@.len(),
        {
            let n: usize = self.done.len();
            if n >= self.items.len() {
                break;
            }
            let item = &self.items[n];
            let ghost s = self@;
            assert(s.items[n as int] == item_facts(*item));
            match decide_early(item.phase.as_str(), &item.tier, self.disabled) {
                Some((action, reason)) => {
                    let d = PruneDecision {
                        action,
                        entry: PruningPlanEntry {
                            layer: item.layer,
                            expert: item.expert,
                            action: action.name().to_owned(),
                            target_format: None,
                            estimated_mass_loss: 0,
                            reason: reason.to_owned(),
                        },
                    };
                    let ghost was = self.done@;
                    self.done.push(d);
                    proof {
                        assert(verdicts(self.done@) == verdicts(was).push(decision_facts(d)));
                        assert(self@ == settle_one(s));
                        assert forall|k: int| 0 <= k < self@.done.len() implies follows_rules(
                            self@.items[k],
                            self@.disabled,
                            self@.budget.spec_mass_loss_threshold(),
                            #[trigger] self@.done[k],
                        ) by {
                            if k < was.len() {
                                assert(self@.done[k] == s.done[k]);
                            }
                        }
                    }
                },
                None => {
                    break;
                },
            }
        }
    }

    /// The fractions of which the loss of the next expert is made; none where all
    /// experts have been decided.
    pub fn pending(&self) -> (q: Option<LossQuestion>)
        ensures
            q == question(self@),
    {
        let n: usize = self.done.len();
        if n >= self.items.len() {
            return None;
        }
        let i = &self.items[n];
        assert(self@.items[n as int] == item_facts(*i));
        Some(
            LossQuestion {
                frequency: i.frequency,
                avg_gate_weight: i.avg_gate_weight,
                importance: i.importance,
                cumulative: self.cumulative,
            },
        )
    }

    /// Decides the next expert by its loss. `mass` is the bit pattern of the loss,
    /// and `sum` that of the loss of all so far with it.
    pub fn decide(&mut self, mass: u64, sum: u64)
        requires
            old(self).wf(),
            old(self)@.done.len() < old(self)@.items.len(),
            !settles(old(self)@),
        ensures
            final(self).wf(),
            final(self)@ == decided(old(self)@, mass, sum),
    {
        let ghost s = self@;
        let n: usize = self.done.len();
        let threshold: u64 = self.budget.mass_loss_threshold();
        let item = &self.items[n];
        assert(s.items[n as int] == item_facts(*item));
        let ghost facts = item_facts(*item);
        let (action, reason, format, loss) = if ieee::is_less64(threshold, sum) {
            (PruneAction::ColdTier, "mass_loss_budget_exceeded", None, 0u64)
        } else if ieee::is_less64(item.importance, PRUNE_BELOW) {
            (PruneAction::PruneCandidate, "cold_low_importance", Some("iq2".to_owned()), mass)
        } else {
            (PruneAction::Compress, "cold_moderate_importance", Some("iq3".to_owned()), mass)
        };
        let d = PruneDecision {
            action,
            entry: PruningPlanEntry {
                layer: item.layer,
                expert: item.expert,
                action: action.name().to_owned(),
                target_format: format,
                estimated_mass_loss: loss,
                reason: reason.to_owned(),
            },
        };
        let ghost was = self.done@;
        if !ieee::is_less64(threshold, sum) {
            self.cumulative = sum;
        }
        self.done.push(d);
        proof {
            assert(decision_facts(d) == late(facts, threshold, mass, sum));
            assert(verdicts(self.done@) == verdicts(was).push(decision_facts(d)));
            assert(self@ == decided(s, mass, sum));
            assert forall|k: int| 0 <= k < self@.done.len() implies follows_rules(
                self@.items[k],
                self@.disabled,
                self@.budget.spec_mass_loss_threshold(),
                #[trigger] self@.done[k],
            ) by {
                if k < was.len() {
                    assert(self@.done[k] == s.done[k]);
                }
            }
        }
    }
}

// ---------------------------------------------------------------------------
// The plan
// ---------------------------------------------------------------------------

/// What an entry of the plan says.
#[verifier::ext_equal]
pub struct PlannedFacts {
    pub layer: u32,
    pub expert: u32,
    pub action: Seq<char>,
    pub target_format: Option<Seq<char>>,
    pub estimated_mass_loss: u64,
    pub reason: Seq<char>,
}

/// What an entry of the plan says.
pub open spec fn planned_facts(e: PruningPlanEntry) -> PlannedFacts {
    PlannedFacts {
        layer: e.layer,
        expert: e.expert,
        action: e.action@,
        target_format: match e.target_format {
            Some(f) => Some(f@),
            None => None,
        },
        estimated_mass_loss: e.estimated_mass_loss,
        reason: e.reason@,
    }
}

/// A verdict as the plan states it.
pub open spec fn stated(v: Verdict) -> PlannedFacts {
    PlannedFacts {
        layer: v.layer,
        expert: v.expert,
        action: v.action.spec_name(),
        target_format: v.target_format,
        estimated_mass_loss: v.estimated_mass_loss,
        reason: v.reason,
    }
}

/// Numbers that order verdicts by layer, and within a layer by expert.
pub open spec fn verdict_keys(vs: Seq<Verdict>) -> Seq<i128> {
    vs.map_values(|v: Verdict| (v.layer * 0x1_0000_0000 + v.expert) as i128)
}

/// The entries state the verdicts, ordered by layer and expert. Verdicts about the
/// same expert keep their order.
pub open spec fn states_in_order(es: Seq<PruningPlanEntry>, vs: Seq<Verdict>) -> bool {
    exists|ids: Seq<usize>| #[trigger]
        rank::is_order(ids, verdict_keys(vs)) && es.map_values(
            |e: PruningPlanEntry| planned_facts(e),
        ) == ids.map_values(|i: usize| stated(vs[i as int]))
}

fn copy_entry(e: &PruningPlanEntry) -> (c: PruningPlanEntry)
    ensures
        planned_facts(c) == planned_facts(*e),
{
    PruningPlanEntry {
        layer: e.layer,
        expert: e.expert,
        action: e.action.clone(),
        target_format: match &e.target_format {
            Some(f) => Some(f.clone()),
            None => None,
        },
        estimated_mass_loss: e.estimated_mass_loss,
        reason: e.reason.clone(),
    }
}

fn count_action(ds: &Vec<PruneDecision>, action: PruneAction) -> (n: usize)
    ensures
        n == action_count(verdicts(ds@), action),
{
    let mut n: usize = 0;
    let mut i: usize = 0;
    let ghost all = verdicts(ds@);
    assert(all.take(0) == Seq::<Verdict>::empty());
    while i < ds.len()
        invariant
            i <= ds@.len(),
            all == verdicts(ds@),
            n <= i,
            n == action_count(all.take(i as int), action),
        decreases ds@.len() - i,
    {
        assert(all.take(i + 1).drop_last() == all.take(i as int));
        assert(all.take(i + 1).last() == decision_facts(ds@[i as int]));
        if ds[i].action == action {
            n = n + 1;
        }
        i = i + 1;
    }
    assert(all.take(i as int) == all);
    n
}

impl PruningRun {
    /// The plan, once all experts have been decided.
    pub fn finish(&self) -> (p: PruningPlan)
        requires
            self.wf(),
            self@.done.len() == self@.items.len(),
        ensures
            p.schema_version == 1,
            p.summary.protect_count == action_count(self@.done, PruneAction::Protect),
            p.summary.keep_count == action_count(self@.done, PruneAction::Keep),
            p.summary.cold_tier_count == action_count(self@.done, PruneAction::ColdTier),
            p.summary.compress_count == action_count(self@.done, PruneAction::Compress),
            p.summary.prune_candidate_count == action_count(
                self@.done,
                PruneAction::PruneCandidate,
            ),
            p.summary.estimated_routing_mass_loss == self@.cumulative,
            p.summary.quality_budget@ == self@.budget.spec_name(),
            p.summary.mass_loss_threshold == self@.budget.spec_mass_loss_threshold(),
            p.summary.safe == ieee::at_most64(
                self@.cumulative,
                self@.budget.spec_mass_loss_threshold(),
            ),
            p.summary.estimated_only,
            p.summary.requires_verification,
            states_in_order(p.experts@, self@.done),
    {
        let ghost vs = verdicts(self.done@);
        let mut keys: Vec<i128> = Vec::new();
        let mut i: usize = 0;
        while i < self.done.len()
            invariant
                i <= self.done@.len(),
                vs == verdicts(self.done@),
                keys@ == verdict_keys(vs).take(i as int),
            decreases self.done@.len() - i,
        {
            let e = &self.done[i].entry;
            let key: i128 = e.layer as i128 * 0x1_0000_0000 + e.expert as i128;
            assert(vs[i as int] == decision_facts(self.done@[i as int]));
            keys.push(key);
            assert(verdict_keys(vs).take(i + 1) == verdict_keys(vs).take(i as int).push(key));
            i = i + 1;
        }
        assert(verdict_keys(vs).take(i as int) == verdict_keys(vs));
        let ids = rank::order_of(keys.as_slice());
        let ghost want = ids@.map_values(|i: usize| stated(vs[i as int]));
        let mut experts: Vec<PruningPlanEntry> = Vec::new();
        let mut j: usize = 0;
        while j < ids.len()
            invariant
                j <= ids@.len(),
                self.named(),
                vs == verdicts(self.done@),
                rank::is_order(ids@, verdict_keys(vs)),
                want == ids@.map_values(|i: usize| stated(vs[i as int])),
                experts@.map_values(|e: PruningPlanEntry| planned_facts(e)) == want.take(j as int),
            decreases ids@.len() - j,
        {
            assert(ids@[j as int] < self.done@.len());
            let ghost was = experts@;
            let ghost d = self.done@[ids@[j as int] as int];
            let copy = copy_entry(&self.done[ids[j]].entry);
            experts.push(copy);
            proof {
                assert(d.entry.action@ == d.action.spec_name());
                assert(planned_facts(copy) == stated(decision_facts(d)));
                assert(experts@.map_values(|e: PruningPlanEntry| planned_facts(e))
                    == was.map_values(|e: PruningPlanEntry| planned_facts(e)).push(
                    planned_facts(copy),
                ));
                assert(want[j as int] == planned_facts(copy));
                assert(want.take(j + 1) == want.take(j as int).push(want[j as int]));
            }
            j = j + 1;
        }
        assert(want.take(j as int) == want);
        assert(rank::is_order(ids@, verdict_keys(vs)));
        let threshold: u64 = self.budget.mass_loss_threshold();
        PruningPlan {
            schema_version: 1,
            summary: PruningPlanSummary {
                protect_count: count_action(&self.done, PruneAction::Protect),
                keep_count: count_action(&self.done, PruneAction::Keep),
                cold_tier_count: count_action(&self.done, PruneAction::ColdTier),
                compress_count: count_action(&self.done, PruneAction::Compress),
                prune_candidate_count: count_action(&self.done, PruneAction::PruneCandidate),
                estimated_routing_mass_loss: self.cumulative,
                quality_budget: self.budget.name().to_owned(),
                mass_loss_threshold: threshold,
                safe: ieee::is_at_most64(self.cumulative, threshold),
                estimated_only: true,
                requires_verification: true,
            },
            experts,
        }
    }
}

// ---------------------------------------------------------------------------
// Laws
// ---------------------------------------------------------------------------

/// Experts of the first layers are protected, whatever they cost.
pub proof fn frontier_is_protected(s: PruneState, k: int)
    requires
        lawful(s),
        0 <= k < s.done.len(),
        s.items[k].phase == "integrity_frontier"@,
    ensures
        s.done[k].action == PruneAction::Protect,
{
    assert(follows_rules(
        s.items[k],
        s.disabled,
        s.budget.spec_mass_loss_threshold(),
        s.done[k],
    ));
}

/// Only cold experts of layers that are neither protected nor steering nor
/// projecting lose mass, and only where enough of the model has been seen.
pub proof fn only_cold_transport_is_touched(s: PruneState, k: int)
    requires
        lawful(s),
        0 <= k < s.done.len(),
        s.done[k].action.loses_mass(),
    ensures
        s.items[k].tier == ExpertTier::Cold,
        s.items[k].phase != "integrity_frontier"@,
        s.items[k].phase != "steering"@,
        s.items[k].phase != "projection"@,
        !s.disabled,
{
    assert(follows_rules(
        s.items[k],
        s.disabled,
        s.budget.spec_mass_loss_threshold(),
        s.done[k],
    ));
}

/// Each verdict is about the expert in its place.
pub proof fn verdicts_match_experts(s: PruneState, k: int)
    requires
        lawful(s),
        0 <= k < s.done.len(),
    ensures
        s.done[k].layer == s.items[k].layer,
        s.done[k].expert == s.items[k].expert,
{
    assert(follows_rules(
        s.items[k],
        s.disabled,
        s.budget.spec_mass_loss_threshold(),
        s.done[k],
    ));
}

/// A plan whose loss is a number keeps to its budget.
pub proof fn plans_are_safe(s: PruneState)
    requires
        lawful(s),
        !ieee::is_nan64(s.cumulative),
    ensures
        ieee::at_most64(s.cumulative, s.budget.spec_mass_loss_threshold()),
{
}

/// Nothing is compressed or pruned where too little of the model has been seen.
pub proof fn low_coverage_touches_nothing(s: PruneState)
    requires
        lawful(s),
        s.disabled,
    ensures
        action_count(s.done, PruneAction::Compress) == 0,
        action_count(s.done, PruneAction::PruneCandidate) == 0,
{
    assert forall|k: int| 0 <= k < s.done.len() implies !(#[trigger] s.done[k]).action.loses_mass() by {
        if s.done[k].action.loses_mass() {
            only_cold_transport_is_touched(s, k);
        }
    }
    lemma_no_action(s.done);
}

proof fn lemma_no_action(done: Seq<Verdict>)
    requires
        forall|k: int| 0 <= k < done.len() ==> !(#[trigger] done[k]).action.loses_mass(),
    ensures
        action_count(done, PruneAction::Compress) == 0,
        action_count(done, PruneAction::PruneCandidate) == 0,
    decreases done.len(),
{
    if done.len() > 0 {
        assert(!done[done.len() - 1].action.loses_mass());
        lemma_no_action(done.drop_last());
    }
}

/// Hot and warm experts are kept as they are in every layer that is not protected,
/// whatever the budget and however much of the model has been seen.
pub proof fn hot_and_warm_are_kept(s: PruneState, k: int)
    requires
        lawful(s),
        0 <= k < s.done.len(),
        s.items[k].tier != ExpertTier::Cold,
        s.items[k].phase != "integrity_frontier"@,
    ensures
        s.done[k].action == PruneAction::Keep,
{
    assert(follows_rules(
        s.items[k],
        s.disabled,
        s.budget.spec_mass_loss_threshold(),
        s.done[k],
    ));
}

/// Cold experts of steering and projecting layers go to the cold tier. Cold
/// experts of other layers that are not protected stay where too little of the
/// model has been seen; else none of them stays as it is.
pub proof fn cold_experts_move(s: PruneState, k: int)
    requires
        lawful(s),
        0 <= k < s.done.len(),
        s.items[k].tier == ExpertTier::Cold,
        s.items[k].phase != "integrity_frontier"@,
    ensures
        s.items[k].phase == "steering"@ || s.items[k].phase == "projection"@ ==> s.done[k].action
            == PruneAction::ColdTier,
        s.items[k].phase != "steering"@ && s.items[k].phase != "projection"@ ==> (s.disabled
            <==> s.done[k].action == PruneAction::Keep),
        s.done[k].action != PruneAction::Protect,
{
    assert(follows_rules(
        s.items[k],
        s.disabled,
        s.budget.spec_mass_loss_threshold(),
        s.done[k],
    ));
}

/// Only protected layers protect their experts.
pub proof fn only_the_frontier_is_protected(s: PruneState, k: int)
    requires
        lawful(s),
        0 <= k < s.done.len(),
    ensures
        s.done[k].action == PruneAction::Protect <==> s.items[k].phase == "integrity_frontier"@,
{
    assert(follows_rules(
        s.items[k],
        s.disabled,
        s.budget.spec_mass_loss_threshold(),
        s.done[k],
    ));
}

/// An expert has a new format and a loss only where its weights change: three bits
/// where it is compressed, two where it may be pruned. It may be pruned only below
/// an importance of 0.15, and is compressed only where it is not below.
pub proof fn formats_go_with_actions(s: PruneState, k: int)
    requires
        lawful(s),
        0 <= k < s.done.len(),
    ensures
        !s.done[k].action.loses_mass() ==> s.done[k].target_format is None
            && s.done[k].estimated_mass_loss == 0,
        s.done[k].action == PruneAction::Compress ==> s.done[k].target_format == Some("iq3"@)
            && !ieee::less64(s.items[k].importance, PRUNE_BELOW),
        s.done[k].action == PruneAction::PruneCandidate ==> s.done[k].target_format == Some("iq2"@)
            && ieee::less64(s.items[k].importance, PRUNE_BELOW),
{
    assert(follows_rules(
        s.items[k],
        s.disabled,
        s.budget.spec_mass_loss_threshold(),
        s.done[k],
    ));
}

/// Exactly compressing and pruning change weights.
pub proof fn losses_are_changes(a: PruneAction)
    ensures
        a.loses_mass() <==> a != PruneAction::Protect && a != PruneAction::Keep && a
            != PruneAction::ColdTier,
{
}

/// Experts may be pruned below an importance of 0.15, and nothing is pruned where
/// less than eight tenths of the experts have been seen.
pub proof fn limits_are_shares()
    ensures
        ieee::nearest64(PRUNE_BELOW, 15, 100),
        ieee::nearest64(LEAST_COVERAGE, 8, 10),
{
    lemma2_to64_rest();
}

/// Deciding an expert by its loss: beyond the budget it goes to the cold tier, and
/// the loss so far stays what it was; within the budget its weights change, its
/// own loss is noted, and the loss so far is the sum. What was decided before
/// stays.
pub proof fn losses_are_budgeted(s: PruneState, mass: u64, sum: u64)
    requires
        s.done.len() < s.items.len(),
    ensures
        ({
            let next = decided(s, mass, sum);
            let v = next.done.last();
            let over = ieee::less64(s.budget.spec_mass_loss_threshold(), sum);
            &&& next.done.len() == s.done.len() + 1
            &&& next.done.drop_last() == s.done
            &&& over <==> v.action == PruneAction::ColdTier
            &&& over ==> next.cumulative == s.cumulative && v.estimated_mass_loss == 0
            &&& !over ==> next.cumulative == sum && v.estimated_mass_loss == mass
            &&& !over ==> (v.action == PruneAction::PruneCandidate <==> ieee::less64(
                s.items[s.done.len() as int].importance,
                PRUNE_BELOW,
            ))
            &&& !over ==> v.action.loses_mass()
            &&& v.layer == s.items[s.done.len() as int].layer
            &&& v.expert == s.items[s.done.len() as int].expert
            &&& next.items == s.items
            &&& next.budget == s.budget
            &&& next.disabled == s.disabled
        }),
{
    assert(decided(s, mass, sum).done.drop_last() == s.done);
}

/// Settling keeps what was decided and what was lost, and stops only at the end or
/// at a cold expert that neither its layer nor a lack of evidence shields.
pub proof fn settling_stops_at_cold_experts(s: PruneState)
    requires
        s.done.len() <= s.items.len(),
    ensures
        ({
            let t = settled(s);
            &&& t.items == s.items
            &&& t.cumulative == s.cumulative
            &&& t.budget == s.budget
            &&& t.disabled == s.disabled
            &&& s.done.len() <= t.done.len() <= t.items.len()
            &&& t.done.take(s.done.len() as int) == s.done
            &&& forall|k: int|
                s.done.len() <= k < t.done.len() ==> !(#[trigger] t.done[k]).action.loses_mass()
            &&& t.done.len() < t.items.len() ==> {
                let i = t.items[t.done.len() as int];
                i.tier == ExpertTier::Cold && i.phase != "integrity_frontier"@ && i.phase
                    != "steering"@ && i.phase != "projection"@ && !t.disabled
            }
        }),
    decreases s.items.len() - s.done.len(),
{
    if settles(s) {
        let n = settle_one(s);
        settling_stops_at_cold_experts(n);
        let t = settled(n);
        assert(t.done.take(s.done.len() as int) == s.done) by {
            assert(n.done.take(s.done.len() as int) == s.done);
            assert(t.done.take(n.done.len() as int).take(s.done.len() as int) == t.done.take(
                s.done.len() as int,
            ));
        }
        assert forall|k: int| s.done.len() <= k < t.done.len() implies !(
        #[trigger] t.done[k]).action.loses_mass() by {
            if k == s.done.len() {
                assert(t.done.take(n.done.len() as int)[k] == n.done[k]);
            }
        }
    } else {
        assert(s.done.take(s.done.len() as int) == s.done);
    }
}

/// A run asks about the expert that it decides next, and about none once all have
/// been decided.
pub proof fn questions_are_about_the_next(s: PruneState)
    requires
        s.done.len() <= s.items.len(),
    ensures
        question(s) is None <==> s.done.len() == s.items.len(),
        question(s) matches Some(q) ==> {
            let i = s.items[s.done.len() as int];
            q.frequency == i.frequency && q.avg_gate_weight == i.avg_gate_weight && q.importance
                == i.importance && q.cumulative == s.cumulative
        },
{
}

/// A run considers every expert, once each, from the least important one on, with
/// its own tier and the phase of its layer.
pub proof fn the_least_important_come_first(
    items: Seq<ItemFacts>,
    es: Seq<ExpertImportanceEntry>,
    policy: PhasePolicy,
)
    requires
        least_first(items, es, policy),
        es.len() <= usize::MAX,
    ensures
        items.len() == es.len(),
        forall|i: int, j: int|
            0 <= i < j < items.len() ==> !ieee::less64(
                (#[trigger] items[j]).importance,
                (#[trigger] items[i]).importance,
            ),
        forall|e: int|
            0 <= e < es.len() ==> exists|i: int|
                0 <= i < items.len() && (#[trigger] items[i]).layer == (#[trigger] es[e]).layer
                    && items[i].expert == es[e].expert && items[i].tier == es[e].tier
                    && items[i].importance == es[e].importance && items[i].frequency
                    == es[e].frequency && items[i].avg_gate_weight == es[e].avg_gate_weight
                    && items[i].phase == phase_pass::phase_in(policy, es[e].layer),
{
    let ids = choose|ids: Seq<usize>| #[trigger]
        rank::is_ascending(ids, importances(es)) && items == ids.map_values(
            |i: usize| placed(es[i as int], policy),
        );
    assert forall|i: int, j: int| 0 <= i < j < items.len() implies !ieee::less64(
        (#[trigger] items[j]).importance,
        (#[trigger] items[i]).importance,
    ) by {
        assert(rank::underranks(importances(es), ids[i] as int, ids[j] as int));
        assert(ids[i] < importances(es).len() && ids[j] < importances(es).len());
    }
    assert forall|e: int| 0 <= e < es.len() implies exists|i: int|
        0 <= i < items.len() && (#[trigger] items[i]).layer == (#[trigger] es[e]).layer
            && items[i].expert == es[e].expert && items[i].tier == es[e].tier
            && items[i].importance == es[e].importance && items[i].frequency == es[e].frequency
            && items[i].avg_gate_weight == es[e].avg_gate_weight && items[i].phase
            == phase_pass::phase_in(policy, es[e].layer) by {
        rank::ascending_is_complete(ids, importances(es), e as usize);
        let i = choose|i: int| 0 <= i < ids.len() && ids[i] == e as usize;
        assert(items[i] == placed(es[e], policy));
    }
}

/// Actions have different names.
pub proof fn actions_are_told_apart(a: PruneAction, b: PruneAction)
    requires
        a.spec_name() == b.spec_name(),
    ensures
        a == b,
{
    reveal_strlit("protect");
    reveal_strlit("keep");
    reveal_strlit("cold_tier");
    reveal_strlit("compress");
    reveal_strlit("prune_candidate");
    assert("protect"@.len() == 7 && "keep"@.len() == 4 && "cold_tier"@.len() == 9);
    assert("compress"@.len() == 8 && "prune_candidate"@.len() == 15);
}

/// A plan has one entry for each verdict, by layer and expert, and the entry says
/// what the verdict says.
pub proof fn plans_state_every_verdict(es: Seq<PruningPlanEntry>, vs: Seq<Verdict>)
    requires
        states_in_order(es, vs),
        vs.len() <= usize::MAX,
    ensures
        es.len() == vs.len(),
        forall|i: int, j: int|
            0 <= i < j < es.len() ==> {
                let (a, b) = (#[trigger] es[i], #[trigger] es[j]);
                a.layer < b.layer || (a.layer == b.layer && a.expert <= b.expert)
            },
        forall|k: int|
            0 <= k < vs.len() ==> exists|i: int|
                0 <= i < es.len() && (#[trigger] es[i]).layer == (#[trigger] vs[k]).layer
                    && es[i].expert == vs[k].expert && es[i].action@ == vs[k].action.spec_name()
                    && es[i].estimated_mass_loss == vs[k].estimated_mass_loss && es[i].reason@
                    == vs[k].reason && (es[i].target_format is Some <==> vs[k].target_format is Some)
                    && (es[i].target_format matches Some(f) ==> vs[k].target_format == Some(f@)),
{
    let ids = choose|ids: Seq<usize>| #[trigger]
        rank::is_order(ids, verdict_keys(vs)) && es.map_values(
            |e: PruningPlanEntry| planned_facts(e),
        ) == ids.map_values(|i: usize| stated(vs[i as int]));
    let told = es.map_values(|e: PruningPlanEntry| planned_facts(e));
    assert(told.len() == ids.len());
    assert forall|i: int| 0 <= i < es.len() implies planned_facts(#[trigger] es[i]) == stated(
        vs[ids[i] as int],
    ) by {
        assert(told[i] == planned_facts(es[i]));
    }
    assert forall|i: int, j: int| 0 <= i < j < es.len() implies ({
        let (a, b) = (#[trigger] es[i], #[trigger] es[j]);
        a.layer < b.layer || (a.layer == b.layer && a.expert <= b.expert)
    }) by {
        assert(rank::before(verdict_keys(vs), ids[i] as int, ids[j] as int));
        assert(ids[i] < vs.len() && ids[j] < vs.len());
        assert(planned_facts(es[i]) == stated(vs[ids[i] as int]));
        assert(planned_facts(es[j]) == stated(vs[ids[j] as int]));
    }
    assert forall|k: int| 0 <= k < vs.len() implies exists|i: int|
        0 <= i < es.len() && (#[trigger] es[i]).layer == (#[trigger] vs[k]).layer && es[i].expert
            == vs[k].expert && es[i].action@ == vs[k].action.spec_name()
            && es[i].estimated_mass_loss == vs[k].estimated_mass_loss && es[i].reason@
            == vs[k].reason && (es[i].target_format is Some <==> vs[k].target_format is Some) && (
        es[i].target_format matches Some(f) ==> vs[k].target_format == Some(f@)) by {
        rank::order_is_complete(ids, verdict_keys(vs), k as usize);
        let i = choose|i: int| 0 <= i < ids.len() && ids[i] == k as usize;
        assert(planned_facts(es[i]) == stated(vs[k]));
    }
}

/// In a finished plan every expert that is hot or warm and not in a protected layer
/// is kept, and every expert of a protected layer is protected.
pub proof fn plans_keep_what_matters(s: PruneState, es: Seq<PruningPlanEntry>, k: int)
    requires
        lawful(s),
        s.done.len() == s.items.len(),
        s.done.len() <= usize::MAX,
        states_in_order(es, s.done),
        0 <= k < s.items.len(),
        s.items[k].tier != ExpertTier::Cold || s.items[k].phase == "integrity_frontier"@,
    ensures
        exists|i: int|
            0 <= i < es.len() && (#[trigger] es[i]).layer == s.items[k].layer && es[i].expert
                == s.items[k].expert && es[i].target_format is None && es[i].action@ == if s.items[
            k].phase == "integrity_frontier"@ {
                "protect"@
            } else {
                "keep"@
            },
{
    plans_state_every_verdict(es, s.done);
    verdicts_match_experts(s, k);
    only_the_frontier_is_protected(s, k);
    formats_go_with_actions(s, k);
    if s.items[k].phase != "integrity_frontier"@ {
        hot_and_warm_are_kept(s, k);
    }
    assert(s.done[k].action == PruneAction::Protect || s.done[k].action == PruneAction::Keep);
    let i = choose|i: int|
        0 <= i < es.len() && (#[trigger] es[i]).layer == s.done[k].layer && es[i].expert
            == s.done[k].expert && es[i].action@ == s.done[k].action.spec_name()
            && es[i].estimated_mass_loss == s.done[k].estimated_mass_loss && es[i].reason@
            == s.done[k].reason && (es[i].target_format is Some <==> s.done[k].target_format is Some)
            && (es[i].target_format matches Some(f) ==> s.done[k].target_format == Some(f@));
    assert(es[i].action@ == s.done[k].action.spec_name());
}

/// A summary counts an action once for each expert that got it: one more such
/// verdict adds one to its count and to no other.
pub proof fn counts_follow_verdicts(done: Seq<Verdict>, v: Verdict, action: PruneAction)
    ensures
        action_count(Seq::empty(), action) == 0,
        action_count(done.push(v), action) == action_count(done, action) + if v.action == action {
            1nat
        } else {
            0
        },
{
    assert(done.push(v).drop_last() == done);
}

/// The reason names the rule: protection, then heat, then the layer's phase, then a
/// lack of evidence, then warmth, and last the loss.
pub proof fn reasons_name_the_rule(s: PruneState, k: int)
    requires
        lawful(s),
        0 <= k < s.done.len(),
    ensures
        ({
            let (i, v) = (s.items[k], s.done[k]);
            let guarded = i.phase == "steering"@ || i.phase == "projection"@;
            &&& v.action == PruneAction::Protect ==> v.reason == "integrity_frontier_protected"@
            &&& v.action == PruneAction::Keep && i.tier == ExpertTier::Hot ==> v.reason
                == "hot_expert_kept"@
            &&& v.action == PruneAction::Keep && i.tier == ExpertTier::Warm && guarded ==> v.reason
                == "steering_warm_kept"@
            &&& v.action == PruneAction::Keep && i.tier == ExpertTier::Warm && !guarded
                && !s.disabled ==> v.reason == "transport_warm_kept"@
            &&& v.action == PruneAction::Keep && i.tier != ExpertTier::Hot && !guarded && s.disabled
                ==> v.reason == "pruning_disabled_low_coverage"@
            &&& v.action == PruneAction::ColdTier && guarded ==> v.reason == "steering_cold_tier"@
            &&& v.action == PruneAction::ColdTier && !guarded ==> v.reason
                == "mass_loss_budget_exceeded"@
            &&& v.action == PruneAction::PruneCandidate ==> v.reason == "cold_low_importance"@
            &&& v.action == PruneAction::Compress ==> v.reason == "cold_moderate_importance"@
        }),
{
    assert(follows_rules(
        s.items[k],
        s.disabled,
        s.budget.spec_mass_loss_threshold(),
        s.done[k],
    ));
}

} // verus!
