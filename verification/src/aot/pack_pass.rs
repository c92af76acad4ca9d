//! The report of a specialization pack.
//!
//! Fractions come as text: how many digits they show is the caller's part.

use crate::aot::layout_pass;
use crate::aot::pruning_pass::LEAST_COVERAGE;
use crate::aot::specialize;
use crate::aot::types::{
    ExpertImportance, ExpertLayout, ExpertTier, Manifest, PhasePolicy, PhasePolicyLayer,
    PruningPlan, PruningPlanSummary, QuantPlan, QuantPlanEntry, ResidencyPlanSummary,
    RuntimeProfile, VerificationCheck, VerificationPlan,
};
use crate::ieee;
use crate::text;
use vstd::prelude::*;
use vstd::string::*;

verus! {

/// The fractions of a report as text, and the coverage also as a bit pattern.
#[derive(Debug, Clone)]
pub struct ReportNumbers {
    /// The cache in gigabytes, two digits.
    pub cache_gb: String,
    pub coverage: u64,
    /// The coverage in percent, one digit.
    pub coverage_pct: String,
    /// The most loss allowed, four digits.
    pub mass_threshold: String,
    /// The most loss allowed in percent, one digit.
    pub mass_threshold_pct: String,
    /// The estimated loss, four digits.
    pub mass_loss_short: String,
    /// The estimated loss, six digits.
    pub mass_loss: String,
    /// The estimated loss in percent, two digits.
    pub mass_loss_pct: String,
    /// The resident experts in megabytes, two digits.
    pub hot_mb: String,
    /// The share of routing mass at run time.
    pub top_p: String,
}

fn bool_str(b: bool) -> (s: &'static str)
    ensures
        s@ == layout_pass::bool_text(b),
{
    if b {
        "true"
    } else {
        "false"
    }
}

/// A caveat that holds, or does not.
pub open spec fn flag_text(b: bool) -> Seq<char> {
    if b {
        "yes ⚠️"@
    } else {
        "no"@
    }
}

fn flag_str(b: bool) -> (s: &'static str)
    ensures
        s@ == flag_text(b),
{
    if b {
        "yes ⚠️"
    } else {
        "no"
    }
}

// ---------------------------------------------------------------------------
// Counts
// ---------------------------------------------------------------------------

/// How many layers are in a phase.
pub open spec fn phase_count(layers: Seq<PhasePolicyLayer>, phase: Seq<char>) -> nat
    decreases layers.len(),
{
    if layers.len() == 0 {
        0
    } else {
        phase_count(layers.drop_last(), phase) + if layers.last().phase@ == phase {
            1nat
        } else {
            0
        }
    }
}

/// How many layers are in a phase.
pub fn count_phase(policy: &PhasePolicy, phase: &str) -> (n: usize)
    ensures
        n == phase_count(policy.layers@, phase@),
{
    let layers = &policy.layers;
    let mut n: usize = 0;
    let mut i: usize = 0;
    assert(layers@.take(0) == Seq::<PhasePolicyLayer>::empty());
    while i < layers.len()
        invariant
            i <= layers@.len(),
            n <= i,
            n == phase_count(layers@.take(i as int), phase@),
        decreases layers@.len() - i,
    {
        assert(layers@.take(i + 1).drop_last() == layers@.take(i as int));
        if text::text_eq(layers[i].phase.as_str(), phase) {
            n = n + 1;
        }
        i = i + 1;
    }
    assert(layers@.take(i as int) == layers@);
    n
}

/// How many parts of the model are stored in a format.
pub open spec fn format_count(es: Seq<QuantPlanEntry>, format: Seq<char>) -> nat
    decreases es.len(),
{
    if es.len() == 0 {
        0
    } else {
        format_count(es.drop_last(), format) + if es.last().recommended_format@ == format {
            1nat
        } else {
            0
        }
    }
}

/// How many parts of the model are stored in a format.
pub fn count_format(plan: &QuantPlan, format: &str) -> (n: usize)
    ensures
        n == format_count(plan.entries@, format@),
{
    let es = &plan.entries;
    let mut n: usize = 0;
    let mut i: usize = 0;
    assert(es@.take(0) == Seq::<QuantPlanEntry>::empty());
    while i < es.len()
        invariant
            i <= es@.len(),
            n <= i,
            n == format_count(es@.take(i as int), format@),
        decreases es@.len() - i,
    {
        assert(es@.take(i + 1).drop_last() == es@.take(i as int));
        if text::text_eq(es[i].recommended_format.as_str(), format) {
            n = n + 1;
        }
        i = i + 1;
    }
    assert(es@.take(i as int) == es@);
    n
}

/// Names as a bulleted list, one to a line.
pub open spec fn bullets(names: Seq<Seq<char>>) -> Seq<char>
    decreases names.len(),
{
    if names.len() == 0 {
        Seq::empty()
    } else {
        let line = "- `"@ + names.last() + "`"@;
        if names.len() == 1 {
            line
        } else {
            bullets(names.drop_last()) + "\n"@ + line
        }
    }
}

fn push_bullet(out: &mut String, name: &str, Ghost(names): Ghost<Seq<Seq<char>>>, first: bool)
    requires
        old(out)@ == bullets(names),
        first == (names.len() == 0),
    ensures
        final(out)@ == bullets(names.push(name@)),
{
    let ghost line = "- `"@ + name@ + "`"@;
    let ghost was = out@;
    if !first {
        out.append("\n");
    }
    let ghost here = out@;
    out.append("- `");
    out.append(name);
    out.append("`");
    proof {
        assert(names.push(name@).drop_last() == names);
        assert(out@ == here + line);
        if first {
            assert(here + line == line);
        }
    }
}

fn list_checks(plan: &VerificationPlan) -> (s: String)
    ensures
        s@ == bullets(plan.checks@.map_values(|c: VerificationCheck| c.kind@)),
{
    let mut s = String::new();
    let ghost all = plan.checks@.map_values(|c: VerificationCheck| c.kind@);
    let mut i: usize = 0;
    assert(all.take(0) == Seq::<Seq<char>>::empty());
    while i < plan.checks.len()
        invariant
            i <= plan.checks@.len(),
            all == plan.checks@.map_values(|c: VerificationCheck| c.kind@),
            s@ == bullets(all.take(i as int)),
        decreases plan.checks@.len() - i,
    {
        push_bullet(&mut s, plan.checks[i].kind.as_str(), Ghost(all.take(i as int)), i == 0);
        assert(all.take(i + 1) == all.take(i as int).push(all[i as int]));
        i = i + 1;
    }
    assert(all.take(i as int) == all);
    s
}

fn list_files(manifest: &Manifest) -> (s: String)
    ensures
        s@ == bullets(text::views(manifest.files@)),
{
    let mut s = String::new();
    let ghost all = text::views(manifest.files@);
    let mut i: usize = 0;
    assert(all.take(0) == Seq::<Seq<char>>::empty());
    while i < manifest.files.len()
        invariant
            i <= manifest.files@.len(),
            all == text::views(manifest.files@),
            s@ == bullets(all.take(i as int)),
        decreases manifest.files@.len() - i,
    {
        push_bullet(&mut s, manifest.files[i].as_str(), Ghost(all.take(i as int)), i == 0);
        assert(all.take(i + 1) == all.take(i as int).push(all[i as int]));
        i = i + 1;
    }
    assert(all.take(i as int) == all);
    s
}

// ---------------------------------------------------------------------------
// Safety gates
// ---------------------------------------------------------------------------

/// Enough of the model has been seen for experts to be pruned.
pub open spec fn pruning_enabled(n: ReportNumbers) -> bool {
    ieee::at_most64(LEAST_COVERAGE, n.coverage)
}

/// What the report says of the limit on the loss.
pub open spec fn loss_gate(n: ReportNumbers, safe: bool) -> Seq<char> {
    if safe {
        "✅ Mass-loss gate: within budget ("@ + n.mass_loss_short@ + " ≤ "@ + n.mass_threshold@
            + ")"@
    } else {
        "⛔ Mass-loss gate: EXCEEDED ("@ + n.mass_loss_short@ + " > "@ + n.mass_threshold@ + ")"@
    }
}

/// What the safety gates say: that on coverage where it is closed, and that on the
/// loss.
pub open spec fn gates_text(n: ReportNumbers, safe: bool) -> Seq<char> {
    if pruning_enabled(n) {
        loss_gate(n, safe)
    } else {
        "⚠️  Coverage gate: pruning disabled (coverage="@ + n.coverage_pct@ + "% < 80%)"@ + "\n"@
            + loss_gate(n, safe)
    }
}

fn gate_lines(n: &ReportNumbers, safe: bool) -> (s: String)
    ensures
        s@ == gates_text(*n, safe),
{
    let mut loss = if safe {
        "✅ Mass-loss gate: within budget (".to_owned()
    } else {
        "⛔ Mass-loss gate: EXCEEDED (".to_owned()
    };
    loss.append(n.mass_loss_short.as_str());
    if safe {
        loss.append(" ≤ ");
    } else {
        loss.append(" > ");
    }
    loss.append(n.mass_threshold.as_str());
    loss.append(")");
    if ieee::is_at_most64(LEAST_COVERAGE, n.coverage) {
        return loss;
    }
    let mut s = "⚠️  Coverage gate: pruning disabled (coverage=".to_owned();
    s.append(n.coverage_pct.as_str());
    s.append("% < 80%)");
    s.append("\n");
    s.append(loss.as_str());
    s
}

// ---------------------------------------------------------------------------
// Sections
// ---------------------------------------------------------------------------

/// The title, the origin of the phases and the arguments.
pub open spec fn head_text(created_at: Seq<char>, provenance: Seq<char>, args: Seq<char>) -> Seq<char> {
    "# Objeta Specialization Report\n\nGenerated by objeta-aot specialize v0.1 at "@
        + created_at
        + "\n\n> **Note**: Phase classification uses heuristic rules ("@
        + provenance
        + ").\n> Mass-loss figures are routing-trace estimates only — not end-to-end quality measurements.\n> Verification is required before applying this plan to a production pack.\n\n## Arguments\n\n"@
        + args
        + "\n\n---\n\n"@
}

fn head_section(created_at: &str, provenance: &str, args: &str) -> (s: String)
    ensures
        s@ == head_text(created_at@, provenance@, args@),
{
    let mut s = "# Objeta Specialization Report\n\nGenerated by objeta-aot specialize v0.1 at ".to_owned();
    s.append(created_at);
    s.append("\n\n> **Note**: Phase classification uses heuristic rules (");
    s.append(provenance);
    s.append(").\n> Mass-loss figures are routing-trace estimates only — not end-to-end quality measurements.\n> Verification is required before applying this plan to a production pack.\n\n## Arguments\n\n");
    s.append(args);
    s.append("\n\n---\n\n");
    s
}

/// The target and its cache.
pub open spec fn target_text(target: Seq<char>, backend: Seq<char>, gb: Seq<char>, bytes: u64) -> Seq<char> {
    "## Target Hardware\n\n| Field | Value |\n|-------|-------|\n| Target | `"@
        + target
        + "` |\n| Backend | `"@
        + backend
        + "` |\n| Cache capacity | "@
        + gb
        + " GB ("@
        + text::decimal(bytes as nat)
        + " bytes) |\n\n---\n\n"@
}

fn target_section(target: &str, backend: &str, gb: &str, bytes: u64) -> (s: String)
    ensures
        s@ == target_text(target@, backend@, gb@, bytes),
{
    let mut s = "## Target Hardware\n\n| Field | Value |\n|-------|-------|\n| Target | `".to_owned();
    s.append(target);
    s.append("` |\n| Backend | `");
    s.append(backend);
    s.append("` |\n| Cache capacity | ");
    s.append(gb);
    s.append(" GB (");
    text::push_decimal(&mut s, bytes);
    s.append(" bytes) |\n\n---\n\n");
    s
}

/// The model and what the layout lists.
pub open spec fn model_text(model: Seq<char>, layers: u32, routed: u64, packed: usize, shared: usize, routers: usize) -> Seq<char> {
    "## Model\n\n| Field | Value |\n|-------|-------|\n| Model | `"@
        + model
        + "` |\n| Layers | "@
        + text::decimal(layers as nat)
        + " |\n| Routed experts (logical) | "@
        + text::decimal(routed as nat)
        + " |\n| Packed expert layers | "@
        + text::decimal(packed as nat)
        + " |\n| Shared experts | "@
        + text::decimal(shared as nat)
        + " |\n| Routers | "@
        + text::decimal(routers as nat)
        + " |\n\n---\n\n"@
}

fn model_section(model: &str, layers: u32, routed: u64, packed: usize, shared: usize, routers: usize) -> (s: String)
    ensures
        s@ == model_text(model@, layers, routed, packed, shared, routers),
{
    let mut s = "## Model\n\n| Field | Value |\n|-------|-------|\n| Model | `".to_owned();
    s.append(model);
    s.append("` |\n| Layers | ");
    text::push_decimal(&mut s, layers as u64);
    s.append(" |\n| Routed experts (logical) | ");
    text::push_decimal(&mut s, routed);
    s.append(" |\n| Packed expert layers | ");
    text::push_usize(&mut s, packed);
    s.append(" |\n| Shared experts | ");
    text::push_usize(&mut s, shared);
    s.append(" |\n| Routers | ");
    text::push_usize(&mut s, routers);
    s.append(" |\n\n---\n\n");
    s
}

/// How much of the model the calibration has seen.
pub open spec fn coverage_text(calibrated: usize, total: u64, pct: Seq<char>, enabled: bool) -> Seq<char> {
    "## Calibration Coverage\n\n| Metric | Value |\n|--------|-------|\n| Calibrated experts | "@
        + text::decimal(calibrated as nat)
        + " |\n| Total experts (layout) | "@
        + text::decimal(total as nat)
        + " |\n| Coverage ratio | "@
        + pct
        + "% |\n| Pruning enabled | "@
        + layout_pass::bool_text(enabled)
        + " |\n\n---\n\n"@
}

fn coverage_section(calibrated: usize, total: u64, pct: &str, enabled: bool) -> (s: String)
    ensures
        s@ == coverage_text(calibrated, total, pct@, enabled),
{
    let mut s = "## Calibration Coverage\n\n| Metric | Value |\n|--------|-------|\n| Calibrated experts | ".to_owned();
    text::push_usize(&mut s, calibrated);
    s.append(" |\n| Total experts (layout) | ");
    text::push_decimal(&mut s, total);
    s.append(" |\n| Coverage ratio | ");
    s.append(pct);
    s.append("% |\n| Pruning enabled | ");
    s.append(bool_str(enabled));
    s.append(" |\n\n---\n\n");
    s
}

/// How many layers each phase has.
pub open spec fn phase_text(provenance: Seq<char>, frontier: usize, steering: usize, transport: usize, projection: usize) -> Seq<char> {
    "## Phase Summary\n\nPhase classification: "@
        + provenance
        + "\n\n| Phase | Layers | Role |\n|-------|--------|------|\n| integrity_frontier | "@
        + text::decimal(frontier as nat)
        + " | Protected — early token formation |\n| steering | "@
        + text::decimal(steering as nat)
        + " | Protected — GQA semantic routing |\n| transport | "@
        + text::decimal(transport as nat)
        + " | Optimizable — bulk FFN transport |\n| projection | "@
        + text::decimal(projection as nat)
        + " | Protected — late output projection |\n\n---\n\n"@
}

fn phase_section(provenance: &str, frontier: usize, steering: usize, transport: usize, projection: usize) -> (s: String)
    ensures
        s@ == phase_text(provenance@, frontier, steering, transport, projection),
{
    let mut s = "## Phase Summary\n\nPhase classification: ".to_owned();
    s.append(provenance);
    s.append("\n\n| Phase | Layers | Role |\n|-------|--------|------|\n| integrity_frontier | ");
    text::push_usize(&mut s, frontier);
    s.append(" | Protected — early token formation |\n| steering | ");
    text::push_usize(&mut s, steering);
    s.append(" | Protected — GQA semantic routing |\n| transport | ");
    text::push_usize(&mut s, transport);
    s.append(" | Optimizable — bulk FFN transport |\n| projection | ");
    text::push_usize(&mut s, projection);
    s.append(" | Protected — late output projection |\n\n---\n\n");
    s
}

/// How many experts each tier has.
pub open spec fn tier_text(hot: usize, warm: usize, cold: usize) -> Seq<char> {
    "## Expert Tier Distribution\n\n| Tier | Count |\n|------|-------|\n| 🔥 Hot | "@
        + text::decimal(hot as nat)
        + " |\n| 🌡️ Warm | "@
        + text::decimal(warm as nat)
        + " |\n| 🧊 Cold | "@
        + text::decimal(cold as nat)
        + " |\n\n---\n\n"@
}

fn tier_section(hot: usize, warm: usize, cold: usize) -> (s: String)
    ensures
        s@ == tier_text(hot, warm, cold),
{
    let mut s = "## Expert Tier Distribution\n\n| Tier | Count |\n|------|-------|\n| 🔥 Hot | ".to_owned();
    text::push_usize(&mut s, hot);
    s.append(" |\n| 🌡️ Warm | ");
    text::push_usize(&mut s, warm);
    s.append(" |\n| 🧊 Cold | ");
    text::push_usize(&mut s, cold);
    s.append(" |\n\n---\n\n");
    s
}

/// How many parts of the model each format has.
pub open spec fn precision_text(q8: usize, q5: usize, q4: usize, iq3: usize, iq2: usize) -> Seq<char> {
    "## Precision Summary\n\n| Format | Count | Note |\n|--------|-------|------|\n| q8 | "@
        + text::decimal(q8 as nat)
        + " | Routers (always) |\n| q5 | "@
        + text::decimal(q5 as nat)
        + " | Protected layers, hot steering |\n| q4 | "@
        + text::decimal(q4 as nat)
        + " | Warm transport, hot transport |\n| iq3 | "@
        + text::decimal(iq3 as nat)
        + " | Cold transport candidates |\n| iq2 | "@
        + text::decimal(iq2 as nat)
        + " | Prune candidates only |\n\n---\n\n"@
}

fn precision_section(q8: usize, q5: usize, q4: usize, iq3: usize, iq2: usize) -> (s: String)
    ensures
        s@ == precision_text(q8, q5, q4, iq3, iq2),
{
    let mut s = "## Precision Summary\n\n| Format | Count | Note |\n|--------|-------|------|\n| q8 | ".to_owned();
    text::push_usize(&mut s, q8);
    s.append(" | Routers (always) |\n| q5 | ");
    text::push_usize(&mut s, q5);
    s.append(" | Protected layers, hot steering |\n| q4 | ");
    text::push_usize(&mut s, q4);
    s.append(" | Warm transport, hot transport |\n| iq3 | ");
    text::push_usize(&mut s, iq3);
    s.append(" | Cold transport candidates |\n| iq2 | ");
    text::push_usize(&mut s, iq2);
    s.append(" | Prune candidates only |\n\n---\n\n");
    s
}

/// What becomes of how many experts.
pub open spec fn actions_text(x: PruningPlanSummary) -> Seq<char> {
    "## Pruning Summary\n\n> ⚠️  **estimated_only**: "@
        + flag_text(x.estimated_only)
        + " — these are routing-trace estimates.\n> ⚠️  **requires_verification**: "@
        + flag_text(x.requires_verification)
        + " — smoke + oracle trace must pass before applying.\n\n| Action | Count | Description |\n|--------|-------|-------------|\n| protect | "@
        + text::decimal(x.protect_count as nat)
        + " | Safety-gated: never touched |\n| keep | "@
        + text::decimal(x.keep_count as nat)
        + " | Retained at current precision |\n| cold_tier | "@
        + text::decimal(x.cold_tier_count as nat)
        + " | Demoted tier, no weight change |\n| compress | "@
        + text::decimal(x.compress_count as nat)
        + " | Quantized to iq3 |\n| prune_candidate | "@
        + text::decimal(x.prune_candidate_count as nat)
        + " | Quantized to iq2 (candidates) |\n\n"@
}

fn actions_section(x: &PruningPlanSummary) -> (s: String)
    ensures
        s@ == actions_text(*x),
{
    let mut s = "## Pruning Summary\n\n> ⚠️  **estimated_only**: ".to_owned();
    s.append(flag_str(x.estimated_only));
    s.append(" — these are routing-trace estimates.\n> ⚠️  **requires_verification**: ");
    s.append(flag_str(x.requires_verification));
    s.append(" — smoke + oracle trace must pass before applying.\n\n| Action | Count | Description |\n|--------|-------|-------------|\n| protect | ");
    text::push_usize(&mut s, x.protect_count);
    s.append(" | Safety-gated: never touched |\n| keep | ");
    text::push_usize(&mut s, x.keep_count);
    s.append(" | Retained at current precision |\n| cold_tier | ");
    text::push_usize(&mut s, x.cold_tier_count);
    s.append(" | Demoted tier, no weight change |\n| compress | ");
    text::push_usize(&mut s, x.compress_count);
    s.append(" | Quantized to iq3 |\n| prune_candidate | ");
    text::push_usize(&mut s, x.prune_candidate_count);
    s.append(" | Quantized to iq2 (candidates) |\n\n");
    s
}

/// The loss and its budget.
pub open spec fn budget_text(budget: Seq<char>, threshold: Seq<char>, threshold_pct: Seq<char>, loss: Seq<char>, loss_pct: Seq<char>, safe: bool) -> Seq<char> {
    "| Budget Metric | Value |\n|---------------|-------|\n| Quality budget | "@
        + budget
        + " |\n| Mass-loss threshold | "@
        + threshold
        + " ("@
        + threshold_pct
        + "%) |\n| Estimated routing mass loss | "@
        + loss
        + " ("@
        + loss_pct
        + "%) |\n| Within budget | "@
        + layout_pass::bool_text(safe)
        + " |\n\n---\n\n"@
}

fn budget_section(budget: &str, threshold: &str, threshold_pct: &str, loss: &str, loss_pct: &str, safe: bool) -> (s: String)
    ensures
        s@ == budget_text(budget@, threshold@, threshold_pct@, loss@, loss_pct@, safe),
{
    let mut s = "| Budget Metric | Value |\n|---------------|-------|\n| Quality budget | ".to_owned();
    s.append(budget);
    s.append(" |\n| Mass-loss threshold | ");
    s.append(threshold);
    s.append(" (");
    s.append(threshold_pct);
    s.append("%) |\n| Estimated routing mass loss | ");
    s.append(loss);
    s.append(" (");
    s.append(loss_pct);
    s.append("%) |\n| Within budget | ");
    s.append(bool_str(safe));
    s.append(" |\n\n---\n\n");
    s
}

/// What is resident from the start.
pub open spec fn residency_text(hot: usize, hot_mb: Seq<char>, evictions: usize) -> Seq<char> {
    "\n\n---\n\n## Residency Plan\n\n| Metric | Value |\n|--------|-------|\n| Initial hot experts | "@
        + text::decimal(hot as nat)
        + " |\n| Initial hot bytes | "@
        + hot_mb
        + " MB |\n| Eviction entries | "@
        + text::decimal(evictions as nat)
        + " |\n\n---\n\n"@
}

fn residency_section(hot: usize, hot_mb: &str, evictions: usize) -> (s: String)
    ensures
        s@ == residency_text(hot, hot_mb@, evictions),
{
    let mut s = "\n\n---\n\n## Residency Plan\n\n| Metric | Value |\n|--------|-------|\n| Initial hot experts | ".to_owned();
    text::push_usize(&mut s, hot);
    s.append(" |\n| Initial hot bytes | ");
    s.append(hot_mb);
    s.append(" MB |\n| Eviction entries | ");
    text::push_usize(&mut s, evictions);
    s.append(" |\n\n---\n\n");
    s
}

/// How the pack is run.
pub open spec fn profile_text(p: RuntimeProfile, top_p: Seq<char>) -> Seq<char> {
    "## Runtime Profile\n\n| Field | Value |\n|-------|-------|\n| Profile | `"@
        + p.profile_name@
        + "` |\n| Backend | `"@
        + p.backend@
        + "` |\n| Policy | "@
        + p.policy_kind@
        + " |\n| top_p | "@
        + top_p
        + " |\n| min experts | "@
        + text::decimal(p.moe_min_experts as nat)
        + " |\n| max experts | "@
        + text::decimal(p.moe_max_experts as nat)
        + " |\n\n---\n\n"@
}

fn profile_section(p: &RuntimeProfile, top_p: &str) -> (s: String)
    ensures
        s@ == profile_text(*p, top_p@),
{
    let mut s = "## Runtime Profile\n\n| Field | Value |\n|-------|-------|\n| Profile | `".to_owned();
    s.append(p.profile_name.as_str());
    s.append("` |\n| Backend | `");
    s.append(p.backend.as_str());
    s.append("` |\n| Policy | ");
    s.append(p.policy_kind.as_str());
    s.append(" |\n| top_p | ");
    s.append(top_p);
    s.append(" |\n| min experts | ");
    text::push_decimal(&mut s, p.moe_min_experts as u64);
    s.append(" |\n| max experts | ");
    text::push_decimal(&mut s, p.moe_max_experts as u64);
    s.append(" |\n\n---\n\n");
    s
}

/// The pairs, checks and files.
pub open spec fn tail_text(pairs: usize, checks: usize, check_list: Seq<char>, file_list: Seq<char>) -> Seq<char> {
    "## Co-residency\n\n"@
        + text::decimal(pairs as nat)
        + " layer-local co-occurrence pairs recorded.\n\n---\n\n## Verification Plan\n\n"@
        + text::decimal(checks as nat)
        + " checks scheduled:\n\n"@
        + check_list
        + "\n\n---\n\n## Output Files\n\n"@
        + file_list
        + "\n"@
}

fn tail_section(pairs: usize, checks: usize, check_list: &str, file_list: &str) -> (s: String)
    ensures
        s@ == tail_text(pairs, checks, check_list@, file_list@),
{
    let mut s = "## Co-residency\n\n".to_owned();
    text::push_usize(&mut s, pairs);
    s.append(" layer-local co-occurrence pairs recorded.\n\n---\n\n## Verification Plan\n\n");
    text::push_usize(&mut s, checks);
    s.append(" checks scheduled:\n\n");
    s.append(check_list);
    s.append("\n\n---\n\n## Output Files\n\n");
    s.append(file_list);
    s.append("\n");
    s
}

// ---------------------------------------------------------------------------
// The report
// ---------------------------------------------------------------------------

/// Where the phases come from.
pub open spec fn provenance_text(p: PhasePolicy) -> Seq<char> {
    "source=`"@ + p.source@ + "`, confidence=`"@ + p.confidence@ + "`"@
}

fn provenance(p: &PhasePolicy) -> (s: String)
    ensures
        s@ == provenance_text(*p),
{
    let mut s = "source=`".to_owned();
    s.append(p.source.as_str());
    s.append("`, confidence=`");
    s.append(p.confidence.as_str());
    s.append("`");
    s
}

/// The first half of the report: what went in, and what the passes found.
pub open spec fn findings_text(
    manifest: Manifest,
    layout: ExpertLayout,
    importance: ExpertImportance,
    policy: PhasePolicy,
    quant: QuantPlan,
    profile: RuntimeProfile,
    capacity: u64,
    args: Seq<char>,
    n: ReportNumbers,
) -> Seq<char> {
    let es = importance.experts@;
    let total = specialize::spec_possible_experts(layout) as u64;
    let ls = policy.layers@;
    let qs = quant.entries@;
    head_text(manifest.created_at@, provenance_text(policy), args) + target_text(
        manifest.target@,
        profile.backend@,
        n.cache_gb@,
        capacity,
    ) + model_text(
        manifest.model_name@,
        layout.num_layers,
        total,
        layout.packed_expert_layers@.len() as usize,
        layout.shared_experts@.len() as usize,
        layout.routers@.len() as usize,
    ) + coverage_text(es.len() as usize, total, n.coverage_pct@, pruning_enabled(n)) + phase_text(
        provenance_text(policy),
        phase_count(ls, "integrity_frontier"@) as usize,
        phase_count(ls, "steering"@) as usize,
        phase_count(ls, "transport"@) as usize,
        phase_count(ls, "projection"@) as usize,
    ) + tier_text(
        specialize::tier_count(es, ExpertTier::Hot) as usize,
        specialize::tier_count(es, ExpertTier::Warm) as usize,
        specialize::tier_count(es, ExpertTier::Cold) as usize,
    ) + precision_text(
        format_count(qs, "q8"@) as usize,
        format_count(qs, "q5"@) as usize,
        format_count(qs, "q4"@) as usize,
        format_count(qs, "iq3"@) as usize,
        format_count(qs, "iq2"@) as usize,
    )
}

/// The second half of the report: what is to be done, checked and written.
pub open spec fn plans_text(
    manifest: Manifest,
    pruning: PruningPlan,
    residency: ResidencyPlanSummary,
    profile: RuntimeProfile,
    verification: VerificationPlan,
    pairs: usize,
    n: ReportNumbers,
) -> Seq<char> {
    actions_text(pruning.summary) + budget_text(
        pruning.summary.quality_budget@,
        n.mass_threshold@,
        n.mass_threshold_pct@,
        n.mass_loss@,
        n.mass_loss_pct@,
        pruning.summary.safe,
    ) + "## Safety Gates\n\n"@ + gates_text(n, pruning.summary.safe) + residency_text(
        residency.initial_hot_expert_count,
        n.hot_mb@,
        residency.eviction_priority_count,
    ) + profile_text(profile, n.top_p@) + tail_text(
        pairs,
        verification.checks@.len() as usize,
        bullets(verification.checks@.map_values(|c: VerificationCheck| c.kind@)),
        bullets(text::views(manifest.files@)),
    )
}

fn findings(
    manifest: &Manifest,
    layout: &ExpertLayout,
    importance: &ExpertImportance,
    policy: &PhasePolicy,
    quant: &QuantPlan,
    profile: &RuntimeProfile,
    capacity: u64,
    args: &str,
    n: &ReportNumbers,
) -> (s: String)
    ensures
        s@ == findings_text(
            *manifest,
            *layout,
            *importance,
            *policy,
            *quant,
            *profile,
            capacity,
            args@,
            *n,
        ),
{
    let origin = provenance(policy);
    let total: u64 = specialize::possible_experts(layout);
    let enabled = ieee::is_at_most64(LEAST_COVERAGE, n.coverage);
    let mut s = head_section(manifest.created_at.as_str(), origin.as_str(), args);
    let part = target_section(
        manifest.target.as_str(),
        profile.backend.as_str(),
        n.cache_gb.as_str(),
        capacity,
    );
    s.append(part.as_str());
    let part = model_section(
        manifest.model_name.as_str(),
        layout.num_layers,
        total,
        layout.packed_expert_layers.len(),
        layout.shared_experts.len(),
        layout.routers.len(),
    );
    s.append(part.as_str());
    let part = coverage_section(
        importance.experts.len(),
        total,
        n.coverage_pct.as_str(),
        enabled,
    );
    s.append(part.as_str());
    let part = phase_section(
        origin.as_str(),
        count_phase(policy, "integrity_frontier"),
        count_phase(policy, "steering"),
        count_phase(policy, "transport"),
        count_phase(policy, "projection"),
    );
    s.append(part.as_str());
    let part = tier_section(
        specialize::count_tier(importance, ExpertTier::Hot),
        specialize::count_tier(importance, ExpertTier::Warm),
        specialize::count_tier(importance, ExpertTier::Cold),
    );
    s.append(part.as_str());
    let part = precision_section(
        count_format(quant, "q8"),
        count_format(quant, "q5"),
        count_format(quant, "q4"),
        count_format(quant, "iq3"),
        count_format(quant, "iq2"),
    );
    s.append(part.as_str());
    s
}

fn plans(
    manifest: &Manifest,
    pruning: &PruningPlan,
    residency: &ResidencyPlanSummary,
    profile: &RuntimeProfile,
    verification: &VerificationPlan,
    pairs: usize,
    n: &ReportNumbers,
) -> (s: String)
    ensures
        s@ == plans_text(*manifest, *pruning, *residency, *profile, *verification, pairs, *n),
{
    let mut s = actions_section(&pruning.summary);
    let part = budget_section(
        pruning.summary.quality_budget.as_str(),
        n.mass_threshold.as_str(),
        n.mass_threshold_pct.as_str(),
        n.mass_loss.as_str(),
        n.mass_loss_pct.as_str(),
        pruning.summary.safe,
    );
    s.append(part.as_str());
    s.append("## Safety Gates\n\n");
    let part = gate_lines(n, pruning.summary.safe);
    s.append(part.as_str());
    let part = residency_section(
        residency.initial_hot_expert_count,
        n.hot_mb.as_str(),
        residency.eviction_priority_count,
    );
    s.append(part.as_str());
    let part = profile_section(profile, n.top_p.as_str());
    s.append(part.as_str());
    let checks = list_checks(verification);
    let files = list_files(manifest);
    let part = tail_section(pairs, verification.checks.len(), checks.as_str(), files.as_str());
    s.append(part.as_str());
    s
}

/// The report of a pack. `capacity` is the size of the expert cache, and `pairs`
/// the number of pairs of experts that were selected together.
pub fn generate_report(
    manifest: &Manifest,
    layout: &ExpertLayout,
    importance: &ExpertImportance,
    pairs: usize,
    policy: &PhasePolicy,
    quant: &QuantPlan,
    pruning: &PruningPlan,
    capacity: u64,
    residency: &ResidencyPlanSummary,
    profile: &RuntimeProfile,
    verification: &VerificationPlan,
    args: &str,
    n: &ReportNumbers,
) -> (s: String)
    ensures
        s@ == findings_text(
            *manifest,
            *layout,
            *importance,
            *policy,
            *quant,
            *profile,
            capacity,
            args@,
            *n,
        ) + plans_text(*manifest, *pruning, *residency, *profile, *verification, pairs, *n),
{
    let mut s = findings(
        manifest,
        layout,
        importance,
        policy,
        quant,
        profile,
        capacity,
        args,
        n,
    );
    let rest = plans(manifest, pruning, residency, profile, verification, pairs, n);
    s.append(rest.as_str());
    s
}

/// A report calls pruning enabled exactly where the pruning plan may prune: where
/// the coverage is a number that is not below the least one.
pub proof fn reports_agree_on_pruning(n: ReportNumbers)
    requires
        !ieee::is_nan64(n.coverage),
    ensures
        pruning_enabled(n) <==> !ieee::less64(n.coverage, LEAST_COVERAGE),
{
}

/// Phases and formats count the layers and parts that have them.
pub proof fn phases_and_formats_are_counted(
    layers: Seq<PhasePolicyLayer>,
    phase: Seq<char>,
    es: Seq<QuantPlanEntry>,
    format: Seq<char>,
)
    ensures
        phase_count(layers, phase) == layers.filter(
            |l: PhasePolicyLayer| l.phase@ == phase,
        ).len(),
        format_count(es, format) == es.filter(
            |e: QuantPlanEntry| e.recommended_format@ == format,
        ).len(),
    decreases layers.len() + es.len(),
{
    reveal(Seq::filter);
    if layers.len() > 0 {
        phases_and_formats_are_counted(layers.drop_last(), phase, es, format);
    }
    if es.len() > 0 {
        phases_and_formats_are_counted(layers, phase, es.drop_last(), format);
    }
}

/// A caveat is marked where it holds, and only there.
pub proof fn caveats_are_marked(b: bool)
    ensures
        flag_text(b) == "no"@ <==> !b,
        text::occurs_at(flag_text(true), "yes"@, 0),
{
    reveal_strlit("yes ⚠️");
    reveal_strlit("yes");
    reveal_strlit("no");
    assert("yes ⚠️"@.subrange(0, 3) == "yes"@);
    assert("yes ⚠️"@[0] == 'y' && "no"@[0] == 'n');
}

/// Where the phases come from is told with how sure that is.
pub proof fn origins_are_named(p: PhasePolicy)
    ensures
        text::contains_text(provenance_text(p), "source=`"@ + p.source@),
        text::contains_text(provenance_text(p), "confidence=`"@ + p.confidence@ + "`"@),
{
    let none = Seq::<char>::empty();
    reveal_strlit("`, confidence=`");
    reveal_strlit("confidence=`");
    let mid = "`, confidence=`"@;
    assert(mid.subrange(3, 15) == "confidence=`"@);
    let a = "source=`"@ + p.source@;
    let b = "confidence=`"@ + p.confidence@ + "`"@;
    let s = provenance_text(p);
    assert(mid == mid.subrange(0, 3) + "confidence=`"@);
    assert(s == none + a + (mid.subrange(0, 3) + b));
    text::middles_are_contained(none, a, mid.subrange(0, 3) + b);
    assert(s == a + mid.subrange(0, 3) + b + none);
    text::middles_are_contained(a + mid.subrange(0, 3), b, none);
}

} // verus!
