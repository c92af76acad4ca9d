//! What a report tells: every number stands behind its own name.

use crate::aot::layout_pass;
use crate::aot::pack_pass;
use crate::aot::pack_pass::ReportNumbers;
use crate::aot::pruning_pass;
use crate::aot::specialize;
use crate::aot::types::{
    ExpertImportance, ExpertLayout, ExpertTier, Manifest, PhasePolicy, PruningPlan,
    PruningPlanSummary, QuantPlan, ResidencyPlanSummary, RuntimeProfile, SpecializeArgs,
    VerificationCheck, VerificationPlan,
};
use crate::ieee;
use crate::text;
use vstd::prelude::*;

verus! {

// ---------------------------------------------------------------------------
// Literals
// ---------------------------------------------------------------------------

proof fn lemma_row_target()
    ensures
        text::ends_with_text(
            "## Target Hardware\n\n| Field | Value |\n|-------|-------|\n| Target | `"@,
            "| Target | `"@,
        ),
{
    reveal_strlit("## Target Hardware\n\n| Field | Value |\n|-------|-------|\n| Target | `");
    reveal_strlit("| Target | `");
    let s = "## Target Hardware\n\n| Field | Value |\n|-------|-------|\n| Target | `"@;
    assert(s.subrange(s.len() - "| Target | `"@.len(), s.len() as int) == "| Target | `"@);
}

proof fn lemma_row_backend()
    ensures
        text::ends_with_text("` |\n| Backend | `"@, "| Backend | `"@),
        text::occurs_at("` |\n| Backend | `"@, "` |"@, 0),
{
    reveal_strlit("` |\n| Backend | `");
    reveal_strlit("| Backend | `");
    reveal_strlit("` |");
    let s = "` |\n| Backend | `"@;
    assert(s.subrange(s.len() - "| Backend | `"@.len(), s.len() as int) == "| Backend | `"@);
    assert(s.subrange(0, "` |"@.len() as int) == "` |"@);
}

proof fn lemma_row_cache_capacity()
    ensures
        text::ends_with_text("` |\n| Cache capacity | "@, "| Cache capacity | "@),
        text::occurs_at("` |\n| Cache capacity | "@, "` |"@, 0),
{
    reveal_strlit("` |\n| Cache capacity | ");
    reveal_strlit("| Cache capacity | ");
    reveal_strlit("` |");
    let s = "` |\n| Cache capacity | "@;
    assert(s.subrange(s.len() - "| Cache capacity | "@.len(), s.len() as int)
        == "| Cache capacity | "@);
    assert(s.subrange(0, "` |"@.len() as int) == "` |"@);
}

proof fn lemma_row_gb()
    ensures
        text::ends_with_text(" GB ("@, " GB ("@),
        text::occurs_at(" GB ("@, " GB ("@, 0),
{
    reveal_strlit(" GB (");
    let s = " GB ("@;
    assert(s.subrange(s.len() - " GB ("@.len(), s.len() as int) == " GB ("@);
    assert(s.subrange(0, " GB ("@.len() as int) == " GB ("@);
}

proof fn lemma_row_bytes()
    ensures
        text::occurs_at(" bytes) |\n\n---\n\n"@, " bytes) |"@, 0),
{
    reveal_strlit(" bytes) |\n\n---\n\n");
    reveal_strlit(" bytes) |");
    let s = " bytes) |\n\n---\n\n"@;
    assert(s.subrange(0, " bytes) |"@.len() as int) == " bytes) |"@);
}

proof fn lemma_row_model()
    ensures
        text::ends_with_text(
            "## Model\n\n| Field | Value |\n|-------|-------|\n| Model | `"@,
            "| Model | `"@,
        ),
{
    reveal_strlit("## Model\n\n| Field | Value |\n|-------|-------|\n| Model | `");
    reveal_strlit("| Model | `");
    let s = "## Model\n\n| Field | Value |\n|-------|-------|\n| Model | `"@;
    assert(s.subrange(s.len() - "| Model | `"@.len(), s.len() as int) == "| Model | `"@);
}

proof fn lemma_row_layers()
    ensures
        text::ends_with_text("` |\n| Layers | "@, "| Layers | "@),
        text::occurs_at("` |\n| Layers | "@, "` |"@, 0),
{
    reveal_strlit("` |\n| Layers | ");
    reveal_strlit("| Layers | ");
    reveal_strlit("` |");
    let s = "` |\n| Layers | "@;
    assert(s.subrange(s.len() - "| Layers | "@.len(), s.len() as int) == "| Layers | "@);
    assert(s.subrange(0, "` |"@.len() as int) == "` |"@);
}

proof fn lemma_row_routed_experts_logical()
    ensures
        text::ends_with_text(
            " |\n| Routed experts (logical) | "@,
            "| Routed experts (logical) | "@,
        ),
        text::occurs_at(" |\n| Routed experts (logical) | "@, " |"@, 0),
{
    reveal_strlit(" |\n| Routed experts (logical) | ");
    reveal_strlit("| Routed experts (logical) | ");
    reveal_strlit(" |");
    let s = " |\n| Routed experts (logical) | "@;
    assert(s.subrange(s.len() - "| Routed experts (logical) | "@.len(), s.len() as int)
        == "| Routed experts (logical) | "@);
    assert(s.subrange(0, " |"@.len() as int) == " |"@);
}

proof fn lemma_row_packed_expert_layers()
    ensures
        text::ends_with_text(" |\n| Packed expert layers | "@, "| Packed expert layers | "@),
        text::occurs_at(" |\n| Packed expert layers | "@, " |"@, 0),
{
    reveal_strlit(" |\n| Packed expert layers | ");
    reveal_strlit("| Packed expert layers | ");
    reveal_strlit(" |");
    let s = " |\n| Packed expert layers | "@;
    assert(s.subrange(s.len() - "| Packed expert layers | "@.len(), s.len() as int)
        == "| Packed expert layers | "@);
    assert(s.subrange(0, " |"@.len() as int) == " |"@);
}

proof fn lemma_row_shared_experts()
    ensures
        text::ends_with_text(" |\n| Shared experts | "@, "| Shared experts | "@),
        text::occurs_at(" |\n| Shared experts | "@, " |"@, 0),
{
    reveal_strlit(" |\n| Shared experts | ");
    reveal_strlit("| Shared experts | ");
    reveal_strlit(" |");
    let s = " |\n| Shared experts | "@;
    assert(s.subrange(s.len() - "| Shared experts | "@.len(), s.len() as int)
        == "| Shared experts | "@);
    assert(s.subrange(0, " |"@.len() as int) == " |"@);
}

proof fn lemma_row_routers()
    ensures
        text::ends_with_text(" |\n| Routers | "@, "| Routers | "@),
        text::occurs_at(" |\n| Routers | "@, " |"@, 0),
{
    reveal_strlit(" |\n| Routers | ");
    reveal_strlit("| Routers | ");
    reveal_strlit(" |");
    let s = " |\n| Routers | "@;
    assert(s.subrange(s.len() - "| Routers | "@.len(), s.len() as int) == "| Routers | "@);
    assert(s.subrange(0, " |"@.len() as int) == " |"@);
}

proof fn lemma_row_section_end()
    ensures
        text::occurs_at(" |\n\n---\n\n"@, " |"@, 0),
{
    reveal_strlit(" |\n\n---\n\n");
    reveal_strlit(" |");
    let s = " |\n\n---\n\n"@;
    assert(s.subrange(0, " |"@.len() as int) == " |"@);
}

proof fn lemma_row_calibrated_experts()
    ensures
        text::ends_with_text(
            "## Calibration Coverage\n\n| Metric | Value |\n|--------|-------|\n| Calibrated experts | "@,
            "| Calibrated experts | "@,
        ),
{
    reveal_strlit("## Calibration Coverage\n\n| Metric | Value |\n|--------|-------|\n| Calibrated experts | ");
    reveal_strlit("| Calibrated experts | ");
    let s = "## Calibration Coverage\n\n| Metric | Value |\n|--------|-------|\n| Calibrated experts | "@;
    assert(s.subrange(s.len() - "| Calibrated experts | "@.len(), s.len() as int)
        == "| Calibrated experts | "@);
}

proof fn lemma_row_total_experts_layout()
    ensures
        text::ends_with_text(" |\n| Total experts (layout) | "@, "| Total experts (layout) | "@),
        text::occurs_at(" |\n| Total experts (layout) | "@, " |"@, 0),
{
    reveal_strlit(" |\n| Total experts (layout) | ");
    reveal_strlit("| Total experts (layout) | ");
    reveal_strlit(" |");
    let s = " |\n| Total experts (layout) | "@;
    assert(s.subrange(s.len() - "| Total experts (layout) | "@.len(), s.len() as int)
        == "| Total experts (layout) | "@);
    assert(s.subrange(0, " |"@.len() as int) == " |"@);
}

proof fn lemma_row_coverage_ratio()
    ensures
        text::ends_with_text(" |\n| Coverage ratio | "@, "| Coverage ratio | "@),
        text::occurs_at(" |\n| Coverage ratio | "@, " |"@, 0),
{
    reveal_strlit(" |\n| Coverage ratio | ");
    reveal_strlit("| Coverage ratio | ");
    reveal_strlit(" |");
    let s = " |\n| Coverage ratio | "@;
    assert(s.subrange(s.len() - "| Coverage ratio | "@.len(), s.len() as int)
        == "| Coverage ratio | "@);
    assert(s.subrange(0, " |"@.len() as int) == " |"@);
}

proof fn lemma_row_pruning_enabled()
    ensures
        text::ends_with_text("% |\n| Pruning enabled | "@, "| Pruning enabled | "@),
        text::occurs_at("% |\n| Pruning enabled | "@, "% |"@, 0),
{
    reveal_strlit("% |\n| Pruning enabled | ");
    reveal_strlit("| Pruning enabled | ");
    reveal_strlit("% |");
    let s = "% |\n| Pruning enabled | "@;
    assert(s.subrange(s.len() - "| Pruning enabled | "@.len(), s.len() as int)
        == "| Pruning enabled | "@);
    assert(s.subrange(0, "% |"@.len() as int) == "% |"@);
}

proof fn lemma_row_phase_classification()
    ensures
        text::ends_with_text(
            "## Phase Summary\n\nPhase classification: "@,
            "Phase classification: "@,
        ),
{
    reveal_strlit("## Phase Summary\n\nPhase classification: ");
    reveal_strlit("Phase classification: ");
    let s = "## Phase Summary\n\nPhase classification: "@;
    assert(s.subrange(s.len() - "Phase classification: "@.len(), s.len() as int)
        == "Phase classification: "@);
}

proof fn lemma_row_integrity_frontier()
    ensures
        text::ends_with_text(
            "\n\n| Phase | Layers | Role |\n|-------|--------|------|\n| integrity_frontier | "@,
            "| integrity_frontier | "@,
        ),
        text::occurs_at(
            "\n\n| Phase | Layers | Role |\n|-------|--------|------|\n| integrity_frontier | "@,
            ""@,
            0,
        ),
{
    reveal_strlit("\n\n| Phase | Layers | Role |\n|-------|--------|------|\n| integrity_frontier | ");
    reveal_strlit("| integrity_frontier | ");
    reveal_strlit("");
    let s = "\n\n| Phase | Layers | Role |\n|-------|--------|------|\n| integrity_frontier | "@;
    assert(s.subrange(s.len() - "| integrity_frontier | "@.len(), s.len() as int)
        == "| integrity_frontier | "@);
    assert(s.subrange(0, ""@.len() as int) == ""@);
}

proof fn lemma_row_steering()
    ensures
        text::ends_with_text(
            " | Protected — early token formation |\n| steering | "@,
            "| steering | "@,
        ),
        text::occurs_at(
            " | Protected — early token formation |\n| steering | "@,
            " | Protected — early token formation |"@,
            0,
        ),
{
    reveal_strlit(" | Protected — early token formation |\n| steering | ");
    reveal_strlit("| steering | ");
    reveal_strlit(" | Protected — early token formation |");
    let s = " | Protected — early token formation |\n| steering | "@;
    assert(s.subrange(s.len() - "| steering | "@.len(), s.len() as int) == "| steering | "@);
    assert(s.subrange(0, " | Protected — early token formation |"@.len() as int)
        == " | Protected — early token formation |"@);
}

proof fn lemma_row_transport()
    ensures
        text::ends_with_text(
            " | Protected — GQA semantic routing |\n| transport | "@,
            "| transport | "@,
        ),
        text::occurs_at(
            " | Protected — GQA semantic routing |\n| transport | "@,
            " | Protected — GQA semantic routing |"@,
            0,
        ),
{
    reveal_strlit(" | Protected — GQA semantic routing |\n| transport | ");
    reveal_strlit("| transport | ");
    reveal_strlit(" | Protected — GQA semantic routing |");
    let s = " | Protected — GQA semantic routing |\n| transport | "@;
    assert(s.subrange(s.len() - "| transport | "@.len(), s.len() as int) == "| transport | "@);
    assert(s.subrange(0, " | Protected — GQA semantic routing |"@.len() as int)
        == " | Protected — GQA semantic routing |"@);
}

proof fn lemma_row_projection()
    ensures
        text::ends_with_text(
            " | Optimizable — bulk FFN transport |\n| projection | "@,
            "| projection | "@,
        ),
        text::occurs_at(
            " | Optimizable — bulk FFN transport |\n| projection | "@,
            " | Optimizable — bulk FFN transport |"@,
            0,
        ),
{
    reveal_strlit(" | Optimizable — bulk FFN transport |\n| projection | ");
    reveal_strlit("| projection | ");
    reveal_strlit(" | Optimizable — bulk FFN transport |");
    let s = " | Optimizable — bulk FFN transport |\n| projection | "@;
    assert(s.subrange(s.len() - "| projection | "@.len(), s.len() as int) == "| projection | "@);
    assert(s.subrange(0, " | Optimizable — bulk FFN transport |"@.len() as int)
        == " | Optimizable — bulk FFN transport |"@);
}

proof fn lemma_row_protected_late_output_projection()
    ensures
        text::occurs_at(
            " | Protected — late output projection |\n\n---\n\n"@,
            " | Protected — late output projection |"@,
            0,
        ),
{
    reveal_strlit(" | Protected — late output projection |\n\n---\n\n");
    reveal_strlit(" | Protected — late output projection |");
    let s = " | Protected — late output projection |\n\n---\n\n"@;
    assert(s.subrange(0, " | Protected — late output projection |"@.len() as int)
        == " | Protected — late output projection |"@);
}

proof fn lemma_row_hot()
    ensures
        text::ends_with_text(
            "## Expert Tier Distribution\n\n| Tier | Count |\n|------|-------|\n| 🔥 Hot | "@,
            "| 🔥 Hot | "@,
        ),
{
    reveal_strlit("## Expert Tier Distribution\n\n| Tier | Count |\n|------|-------|\n| 🔥 Hot | ");
    reveal_strlit("| 🔥 Hot | ");
    let s = "## Expert Tier Distribution\n\n| Tier | Count |\n|------|-------|\n| 🔥 Hot | "@;
    assert(s.subrange(s.len() - "| 🔥 Hot | "@.len(), s.len() as int) == "| 🔥 Hot | "@);
}

proof fn lemma_row_warm()
    ensures
        text::ends_with_text(" |\n| 🌡️ Warm | "@, "| 🌡️ Warm | "@),
        text::occurs_at(" |\n| 🌡️ Warm | "@, " |"@, 0),
{
    reveal_strlit(" |\n| 🌡️ Warm | ");
    reveal_strlit("| 🌡️ Warm | ");
    reveal_strlit(" |");
    let s = " |\n| 🌡️ Warm | "@;
    assert(s.subrange(s.len() - "| 🌡️ Warm | "@.len(), s.len() as int) == "| 🌡️ Warm | "@);
    assert(s.subrange(0, " |"@.len() as int) == " |"@);
}

proof fn lemma_row_cold()
    ensures
        text::ends_with_text(" |\n| 🧊 Cold | "@, "| 🧊 Cold | "@),
        text::occurs_at(" |\n| 🧊 Cold | "@, " |"@, 0),
{
    reveal_strlit(" |\n| 🧊 Cold | ");
    reveal_strlit("| 🧊 Cold | ");
    reveal_strlit(" |");
    let s = " |\n| 🧊 Cold | "@;
    assert(s.subrange(s.len() - "| 🧊 Cold | "@.len(), s.len() as int) == "| 🧊 Cold | "@);
    assert(s.subrange(0, " |"@.len() as int) == " |"@);
}

proof fn lemma_row_q8()
    ensures
        text::ends_with_text(
            "## Precision Summary\n\n| Format | Count | Note |\n|--------|-------|------|\n| q8 | "@,
            "| q8 | "@,
        ),
{
    reveal_strlit("## Precision Summary\n\n| Format | Count | Note |\n|--------|-------|------|\n| q8 | ");
    reveal_strlit("| q8 | ");
    let s = "## Precision Summary\n\n| Format | Count | Note |\n|--------|-------|------|\n| q8 | "@;
    assert(s.subrange(s.len() - "| q8 | "@.len(), s.len() as int) == "| q8 | "@);
}

proof fn lemma_row_q5()
    ensures
        text::ends_with_text(" | Routers (always) |\n| q5 | "@, "| q5 | "@),
        text::occurs_at(" | Routers (always) |\n| q5 | "@, " | Routers (always) |"@, 0),
{
    reveal_strlit(" | Routers (always) |\n| q5 | ");
    reveal_strlit("| q5 | ");
    reveal_strlit(" | Routers (always) |");
    let s = " | Routers (always) |\n| q5 | "@;
    assert(s.subrange(s.len() - "| q5 | "@.len(), s.len() as int) == "| q5 | "@);
    assert(s.subrange(0, " | Routers (always) |"@.len() as int) == " | Routers (always) |"@);
}

proof fn lemma_row_q4()
    ensures
        text::ends_with_text(" | Protected layers, hot steering |\n| q4 | "@, "| q4 | "@),
        text::occurs_at(
            " | Protected layers, hot steering |\n| q4 | "@,
            " | Protected layers, hot steering |"@,
            0,
        ),
{
    reveal_strlit(" | Protected layers, hot steering |\n| q4 | ");
    reveal_strlit("| q4 | ");
    reveal_strlit(" | Protected layers, hot steering |");
    let s = " | Protected layers, hot steering |\n| q4 | "@;
    assert(s.subrange(s.len() - "| q4 | "@.len(), s.len() as int) == "| q4 | "@);
    assert(s.subrange(0, " | Protected layers, hot steering |"@.len() as int)
        == " | Protected layers, hot steering |"@);
}

proof fn lemma_row_iq3()
    ensures
        text::ends_with_text(" | Warm transport, hot transport |\n| iq3 | "@, "| iq3 | "@),
        text::occurs_at(
            " | Warm transport, hot transport |\n| iq3 | "@,
            " | Warm transport, hot transport |"@,
            0,
        ),
{
    reveal_strlit(" | Warm transport, hot transport |\n| iq3 | ");
    reveal_strlit("| iq3 | ");
    reveal_strlit(" | Warm transport, hot transport |");
    let s = " | Warm transport, hot transport |\n| iq3 | "@;
    assert(s.subrange(s.len() - "| iq3 | "@.len(), s.len() as int) == "| iq3 | "@);
    assert(s.subrange(0, " | Warm transport, hot transport |"@.len() as int)
        == " | Warm transport, hot transport |"@);
}

proof fn lemma_row_iq2()
    ensures
        text::ends_with_text(" | Cold transport candidates |\n| iq2 | "@, "| iq2 | "@),
        text::occurs_at(
            " | Cold transport candidates |\n| iq2 | "@,
            " | Cold transport candidates |"@,
            0,
        ),
{
    reveal_strlit(" | Cold transport candidates |\n| iq2 | ");
    reveal_strlit("| iq2 | ");
    reveal_strlit(" | Cold transport candidates |");
    let s = " | Cold transport candidates |\n| iq2 | "@;
    assert(s.subrange(s.len() - "| iq2 | "@.len(), s.len() as int) == "| iq2 | "@);
    assert(s.subrange(0, " | Cold transport candidates |"@.len() as int)
        == " | Cold transport candidates |"@);
}

proof fn lemma_row_prune_candidates_only()
    ensures
        text::occurs_at(" | Prune candidates only |\n\n---\n\n"@, " | Prune candidates only |"@, 0),
{
    reveal_strlit(" | Prune candidates only |\n\n---\n\n");
    reveal_strlit(" | Prune candidates only |");
    let s = " | Prune candidates only |\n\n---\n\n"@;
    assert(s.subrange(0, " | Prune candidates only |"@.len() as int)
        == " | Prune candidates only |"@);
}

proof fn lemma_row_estimated_only()
    ensures
        text::ends_with_text(
            "## Pruning Summary\n\n> ⚠️  **estimated_only**: "@,
            "> ⚠️  **estimated_only**: "@,
        ),
{
    reveal_strlit("## Pruning Summary\n\n> ⚠️  **estimated_only**: ");
    reveal_strlit("> ⚠️  **estimated_only**: ");
    let s = "## Pruning Summary\n\n> ⚠️  **estimated_only**: "@;
    assert(s.subrange(s.len() - "> ⚠️  **estimated_only**: "@.len(), s.len() as int)
        == "> ⚠️  **estimated_only**: "@);
}

proof fn lemma_row_requires_verification()
    ensures
        text::ends_with_text(
            " — these are routing-trace estimates.\n> ⚠️  **requires_verification**: "@,
            "> ⚠️  **requires_verification**: "@,
        ),
        text::occurs_at(
            " — these are routing-trace estimates.\n> ⚠️  **requires_verification**: "@,
            " — these are routing-trace estimates."@,
            0,
        ),
{
    reveal_strlit(" — these are routing-trace estimates.\n> ⚠️  **requires_verification**: ");
    reveal_strlit("> ⚠️  **requires_verification**: ");
    reveal_strlit(" — these are routing-trace estimates.");
    let s = " — these are routing-trace estimates.\n> ⚠️  **requires_verification**: "@;
    assert(s.subrange(s.len() - "> ⚠️  **requires_verification**: "@.len(), s.len() as int)
        == "> ⚠️  **requires_verification**: "@);
    assert(s.subrange(0, " — these are routing-trace estimates."@.len() as int)
        == " — these are routing-trace estimates."@);
}

proof fn lemma_row_protect()
    ensures
        text::ends_with_text(
            " — smoke + oracle trace must pass before applying.\n\n| Action | Count | Description |\n|--------|-------|-------------|\n| protect | "@,
            "| protect | "@,
        ),
        text::occurs_at(
            " — smoke + oracle trace must pass before applying.\n\n| Action | Count | Description |\n|--------|-------|-------------|\n| protect | "@,
            " — smoke + oracle trace must pass before applying."@,
            0,
        ),
{
    reveal_strlit(" — smoke + oracle trace must pass before applying.\n\n| Action | Count | Description |\n|--------|-------|-------------|\n| protect | ");
    reveal_strlit("| protect | ");
    reveal_strlit(" — smoke + oracle trace must pass before applying.");
    let s = " — smoke + oracle trace must pass before applying.\n\n| Action | Count | Description |\n|--------|-------|-------------|\n| protect | "@;
    assert(s.subrange(s.len() - "| protect | "@.len(), s.len() as int) == "| protect | "@);
    assert(s.subrange(0, " — smoke + oracle trace must pass before applying."@.len() as int)
        == " — smoke + oracle trace must pass before applying."@);
}

proof fn lemma_row_keep()
    ensures
        text::ends_with_text(" | Safety-gated: never touched |\n| keep | "@, "| keep | "@),
        text::occurs_at(
            " | Safety-gated: never touched |\n| keep | "@,
            " | Safety-gated: never touched |"@,
            0,
        ),
{
    reveal_strlit(" | Safety-gated: never touched |\n| keep | ");
    reveal_strlit("| keep | ");
    reveal_strlit(" | Safety-gated: never touched |");
    let s = " | Safety-gated: never touched |\n| keep | "@;
    assert(s.subrange(s.len() - "| keep | "@.len(), s.len() as int) == "| keep | "@);
    assert(s.subrange(0, " | Safety-gated: never touched |"@.len() as int)
        == " | Safety-gated: never touched |"@);
}

proof fn lemma_row_cold_tier()
    ensures
        text::ends_with_text(
            " | Retained at current precision |\n| cold_tier | "@,
            "| cold_tier | "@,
        ),
        text::occurs_at(
            " | Retained at current precision |\n| cold_tier | "@,
            " | Retained at current precision |"@,
            0,
        ),
{
    reveal_strlit(" | Retained at current precision |\n| cold_tier | ");
    reveal_strlit("| cold_tier | ");
    reveal_strlit(" | Retained at current precision |");
    let s = " | Retained at current precision |\n| cold_tier | "@;
    assert(s.subrange(s.len() - "| cold_tier | "@.len(), s.len() as int) == "| cold_tier | "@);
    assert(s.subrange(0, " | Retained at current precision |"@.len() as int)
        == " | Retained at current precision |"@);
}

proof fn lemma_row_compress()
    ensures
        text::ends_with_text(
            " | Demoted tier, no weight change |\n| compress | "@,
            "| compress | "@,
        ),
        text::occurs_at(
            " | Demoted tier, no weight change |\n| compress | "@,
            " | Demoted tier, no weight change |"@,
            0,
        ),
{
    reveal_strlit(" | Demoted tier, no weight change |\n| compress | ");
    reveal_strlit("| compress | ");
    reveal_strlit(" | Demoted tier, no weight change |");
    let s = " | Demoted tier, no weight change |\n| compress | "@;
    assert(s.subrange(s.len() - "| compress | "@.len(), s.len() as int) == "| compress | "@);
    assert(s.subrange(0, " | Demoted tier, no weight change |"@.len() as int)
        == " | Demoted tier, no weight change |"@);
}

proof fn lemma_row_prune_candidate()
    ensures
        text::ends_with_text(
            " | Quantized to iq3 |\n| prune_candidate | "@,
            "| prune_candidate | "@,
        ),
        text::occurs_at(
            " | Quantized to iq3 |\n| prune_candidate | "@,
            " | Quantized to iq3 |"@,
            0,
        ),
{
    reveal_strlit(" | Quantized to iq3 |\n| prune_candidate | ");
    reveal_strlit("| prune_candidate | ");
    reveal_strlit(" | Quantized to iq3 |");
    let s = " | Quantized to iq3 |\n| prune_candidate | "@;
    assert(s.subrange(s.len() - "| prune_candidate | "@.len(), s.len() as int)
        == "| prune_candidate | "@);
    assert(s.subrange(0, " | Quantized to iq3 |"@.len() as int) == " | Quantized to iq3 |"@);
}

proof fn lemma_row_quantized_to_iq2_candidates()
    ensures
        text::occurs_at(
            " | Quantized to iq2 (candidates) |\n\n"@,
            " | Quantized to iq2 (candidates) |"@,
            0,
        ),
{
    reveal_strlit(" | Quantized to iq2 (candidates) |\n\n");
    reveal_strlit(" | Quantized to iq2 (candidates) |");
    let s = " | Quantized to iq2 (candidates) |\n\n"@;
    assert(s.subrange(0, " | Quantized to iq2 (candidates) |"@.len() as int)
        == " | Quantized to iq2 (candidates) |"@);
}

proof fn lemma_row_quality_budget()
    ensures
        text::ends_with_text(
            "| Budget Metric | Value |\n|---------------|-------|\n| Quality budget | "@,
            "| Quality budget | "@,
        ),
{
    reveal_strlit("| Budget Metric | Value |\n|---------------|-------|\n| Quality budget | ");
    reveal_strlit("| Quality budget | ");
    let s = "| Budget Metric | Value |\n|---------------|-------|\n| Quality budget | "@;
    assert(s.subrange(s.len() - "| Quality budget | "@.len(), s.len() as int)
        == "| Quality budget | "@);
}

proof fn lemma_row_mass_loss_threshold()
    ensures
        text::ends_with_text(" |\n| Mass-loss threshold | "@, "| Mass-loss threshold | "@),
        text::occurs_at(" |\n| Mass-loss threshold | "@, " |"@, 0),
{
    reveal_strlit(" |\n| Mass-loss threshold | ");
    reveal_strlit("| Mass-loss threshold | ");
    reveal_strlit(" |");
    let s = " |\n| Mass-loss threshold | "@;
    assert(s.subrange(s.len() - "| Mass-loss threshold | "@.len(), s.len() as int)
        == "| Mass-loss threshold | "@);
    assert(s.subrange(0, " |"@.len() as int) == " |"@);
}

proof fn lemma_row_bracket()
    ensures
        text::ends_with_text(" ("@, " ("@),
        text::occurs_at(" ("@, " ("@, 0),
{
    reveal_strlit(" (");
    let s = " ("@;
    assert(s.subrange(s.len() - " ("@.len(), s.len() as int) == " ("@);
    assert(s.subrange(0, " ("@.len() as int) == " ("@);
}

proof fn lemma_row_estimated_routing_mass_loss()
    ensures
        text::ends_with_text(
            "%) |\n| Estimated routing mass loss | "@,
            "| Estimated routing mass loss | "@,
        ),
        text::occurs_at("%) |\n| Estimated routing mass loss | "@, "%) |"@, 0),
{
    reveal_strlit("%) |\n| Estimated routing mass loss | ");
    reveal_strlit("| Estimated routing mass loss | ");
    reveal_strlit("%) |");
    let s = "%) |\n| Estimated routing mass loss | "@;
    assert(s.subrange(s.len() - "| Estimated routing mass loss | "@.len(), s.len() as int)
        == "| Estimated routing mass loss | "@);
    assert(s.subrange(0, "%) |"@.len() as int) == "%) |"@);
}

proof fn lemma_row_within_budget()
    ensures
        text::ends_with_text("%) |\n| Within budget | "@, "| Within budget | "@),
        text::occurs_at("%) |\n| Within budget | "@, "%) |"@, 0),
{
    reveal_strlit("%) |\n| Within budget | ");
    reveal_strlit("| Within budget | ");
    reveal_strlit("%) |");
    let s = "%) |\n| Within budget | "@;
    assert(s.subrange(s.len() - "| Within budget | "@.len(), s.len() as int)
        == "| Within budget | "@);
    assert(s.subrange(0, "%) |"@.len() as int) == "%) |"@);
}

proof fn lemma_row_initial_hot_experts()
    ensures
        text::ends_with_text(
            "\n\n---\n\n## Residency Plan\n\n| Metric | Value |\n|--------|-------|\n| Initial hot experts | "@,
            "| Initial hot experts | "@,
        ),
{
    reveal_strlit("\n\n---\n\n## Residency Plan\n\n| Metric | Value |\n|--------|-------|\n| Initial hot experts | ");
    reveal_strlit("| Initial hot experts | ");
    let s = "\n\n---\n\n## Residency Plan\n\n| Metric | Value |\n|--------|-------|\n| Initial hot experts | "@;
    assert(s.subrange(s.len() - "| Initial hot experts | "@.len(), s.len() as int)
        == "| Initial hot experts | "@);
}

proof fn lemma_row_initial_hot_bytes()
    ensures
        text::ends_with_text(" |\n| Initial hot bytes | "@, "| Initial hot bytes | "@),
        text::occurs_at(" |\n| Initial hot bytes | "@, " |"@, 0),
{
    reveal_strlit(" |\n| Initial hot bytes | ");
    reveal_strlit("| Initial hot bytes | ");
    reveal_strlit(" |");
    let s = " |\n| Initial hot bytes | "@;
    assert(s.subrange(s.len() - "| Initial hot bytes | "@.len(), s.len() as int)
        == "| Initial hot bytes | "@);
    assert(s.subrange(0, " |"@.len() as int) == " |"@);
}

proof fn lemma_row_eviction_entries()
    ensures
        text::ends_with_text(" MB |\n| Eviction entries | "@, "| Eviction entries | "@),
        text::occurs_at(" MB |\n| Eviction entries | "@, " MB |"@, 0),
{
    reveal_strlit(" MB |\n| Eviction entries | ");
    reveal_strlit("| Eviction entries | ");
    reveal_strlit(" MB |");
    let s = " MB |\n| Eviction entries | "@;
    assert(s.subrange(s.len() - "| Eviction entries | "@.len(), s.len() as int)
        == "| Eviction entries | "@);
    assert(s.subrange(0, " MB |"@.len() as int) == " MB |"@);
}

proof fn lemma_row_profile()
    ensures
        text::ends_with_text(
            "## Runtime Profile\n\n| Field | Value |\n|-------|-------|\n| Profile | `"@,
            "| Profile | `"@,
        ),
{
    reveal_strlit("## Runtime Profile\n\n| Field | Value |\n|-------|-------|\n| Profile | `");
    reveal_strlit("| Profile | `");
    let s = "## Runtime Profile\n\n| Field | Value |\n|-------|-------|\n| Profile | `"@;
    assert(s.subrange(s.len() - "| Profile | `"@.len(), s.len() as int) == "| Profile | `"@);
}

proof fn lemma_row_policy()
    ensures
        text::ends_with_text("` |\n| Policy | "@, "| Policy | "@),
        text::occurs_at("` |\n| Policy | "@, "` |"@, 0),
{
    reveal_strlit("` |\n| Policy | ");
    reveal_strlit("| Policy | ");
    reveal_strlit("` |");
    let s = "` |\n| Policy | "@;
    assert(s.subrange(s.len() - "| Policy | "@.len(), s.len() as int) == "| Policy | "@);
    assert(s.subrange(0, "` |"@.len() as int) == "` |"@);
}

proof fn lemma_row_top_p()
    ensures
        text::ends_with_text(" |\n| top_p | "@, "| top_p | "@),
        text::occurs_at(" |\n| top_p | "@, " |"@, 0),
{
    reveal_strlit(" |\n| top_p | ");
    reveal_strlit("| top_p | ");
    reveal_strlit(" |");
    let s = " |\n| top_p | "@;
    assert(s.subrange(s.len() - "| top_p | "@.len(), s.len() as int) == "| top_p | "@);
    assert(s.subrange(0, " |"@.len() as int) == " |"@);
}

proof fn lemma_row_min_experts()
    ensures
        text::ends_with_text(" |\n| min experts | "@, "| min experts | "@),
        text::occurs_at(" |\n| min experts | "@, " |"@, 0),
{
    reveal_strlit(" |\n| min experts | ");
    reveal_strlit("| min experts | ");
    reveal_strlit(" |");
    let s = " |\n| min experts | "@;
    assert(s.subrange(s.len() - "| min experts | "@.len(), s.len() as int) == "| min experts | "@);
    assert(s.subrange(0, " |"@.len() as int) == " |"@);
}

proof fn lemma_row_max_experts()
    ensures
        text::ends_with_text(" |\n| max experts | "@, "| max experts | "@),
        text::occurs_at(" |\n| max experts | "@, " |"@, 0),
{
    reveal_strlit(" |\n| max experts | ");
    reveal_strlit("| max experts | ");
    reveal_strlit(" |");
    let s = " |\n| max experts | "@;
    assert(s.subrange(s.len() - "| max experts | "@.len(), s.len() as int) == "| max experts | "@);
    assert(s.subrange(0, " |"@.len() as int) == " |"@);
}

proof fn lemma_row_generated_by_objeta_aot()
    ensures
        text::ends_with_text(
            "# Objeta Specialization Report\n\nGenerated by objeta-aot specialize v0.1 at "@,
            "Generated by objeta-aot specialize v0.1 at "@,
        ),
{
    reveal_strlit("# Objeta Specialization Report\n\nGenerated by objeta-aot specialize v0.1 at ");
    reveal_strlit("Generated by objeta-aot specialize v0.1 at ");
    let s = "# Objeta Specialization Report\n\nGenerated by objeta-aot specialize v0.1 at "@;
    assert(s.subrange(s.len() - "Generated by objeta-aot specialize v0.1 at "@.len(), s.len() as int)
        == "Generated by objeta-aot specialize v0.1 at "@);
}

proof fn lemma_row_note_phase_classification_uses()
    ensures
        text::ends_with_text(
            "\n\n> **Note**: Phase classification uses heuristic rules ("@,
            "> **Note**: Phase classification uses heuristic rules ("@,
        ),
        text::occurs_at("\n\n> **Note**: Phase classification uses heuristic rules ("@, ""@, 0),
{
    reveal_strlit("\n\n> **Note**: Phase classification uses heuristic rules (");
    reveal_strlit("> **Note**: Phase classification uses heuristic rules (");
    reveal_strlit("");
    let s = "\n\n> **Note**: Phase classification uses heuristic rules ("@;
    assert(s.subrange(s.len() - "> **Note**: Phase classification uses heuristic rules ("@.len(), s.len() as int)
        == "> **Note**: Phase classification uses heuristic rules ("@);
    assert(s.subrange(0, ""@.len() as int) == ""@);
}

proof fn lemma_row_note_end()
    ensures
        text::ends_with_text(
            ").\n> Mass-loss figures are routing-trace estimates only — not end-to-end quality measurements.\n> Verification is required before applying this plan to a production pack.\n\n## Arguments\n\n"@,
            ""@,
        ),
        text::occurs_at(
            ").\n> Mass-loss figures are routing-trace estimates only — not end-to-end quality measurements.\n> Verification is required before applying this plan to a production pack.\n\n## Arguments\n\n"@,
            ")."@,
            0,
        ),
{
    reveal_strlit(").\n> Mass-loss figures are routing-trace estimates only — not end-to-end quality measurements.\n> Verification is required before applying this plan to a production pack.\n\n## Arguments\n\n");
    reveal_strlit("");
    reveal_strlit(").");
    let s = ").\n> Mass-loss figures are routing-trace estimates only — not end-to-end quality measurements.\n> Verification is required before applying this plan to a production pack.\n\n## Arguments\n\n"@;
    assert(s.subrange(s.len() - ""@.len(), s.len() as int) == ""@);
    assert(s.subrange(0, ")."@.len() as int) == ")."@);
}

proof fn lemma_row_rule()
    ensures
        text::occurs_at("\n\n---\n\n"@, ""@, 0),
{
    reveal_strlit("\n\n---\n\n");
    reveal_strlit("");
    let s = "\n\n---\n\n"@;
    assert(s.subrange(0, ""@.len() as int) == ""@);
}

proof fn lemma_row_co_residency()
    ensures
        text::ends_with_text("## Co-residency\n\n"@, ""@),
{
    reveal_strlit("## Co-residency\n\n");
    reveal_strlit("");
    let s = "## Co-residency\n\n"@;
    assert(s.subrange(s.len() - ""@.len(), s.len() as int) == ""@);
}

proof fn lemma_row_layer_local_co_occurrence()
    ensures
        text::ends_with_text(
            " layer-local co-occurrence pairs recorded.\n\n---\n\n## Verification Plan\n\n"@,
            ""@,
        ),
        text::occurs_at(
            " layer-local co-occurrence pairs recorded.\n\n---\n\n## Verification Plan\n\n"@,
            " layer-local co-occurrence pairs recorded."@,
            0,
        ),
{
    reveal_strlit(" layer-local co-occurrence pairs recorded.\n\n---\n\n## Verification Plan\n\n");
    reveal_strlit("");
    reveal_strlit(" layer-local co-occurrence pairs recorded.");
    let s = " layer-local co-occurrence pairs recorded.\n\n---\n\n## Verification Plan\n\n"@;
    assert(s.subrange(s.len() - ""@.len(), s.len() as int) == ""@);
    assert(s.subrange(0, " layer-local co-occurrence pairs recorded."@.len() as int)
        == " layer-local co-occurrence pairs recorded."@);
}

proof fn lemma_row_checks_scheduled()
    ensures
        text::ends_with_text(" checks scheduled:\n\n"@, ""@),
        text::occurs_at(" checks scheduled:\n\n"@, " checks scheduled:"@, 0),
{
    reveal_strlit(" checks scheduled:\n\n");
    reveal_strlit("");
    reveal_strlit(" checks scheduled:");
    let s = " checks scheduled:\n\n"@;
    assert(s.subrange(s.len() - ""@.len(), s.len() as int) == ""@);
    assert(s.subrange(0, " checks scheduled:"@.len() as int) == " checks scheduled:"@);
}

proof fn lemma_row_output_files()
    ensures
        text::ends_with_text("\n\n---\n\n## Output Files\n\n"@, ""@),
        text::occurs_at("\n\n---\n\n## Output Files\n\n"@, ""@, 0),
{
    reveal_strlit("\n\n---\n\n## Output Files\n\n");
    reveal_strlit("");
    let s = "\n\n---\n\n## Output Files\n\n"@;
    assert(s.subrange(s.len() - ""@.len(), s.len() as int) == ""@);
    assert(s.subrange(0, ""@.len() as int) == ""@);
}

proof fn lemma_row_last()
    ensures
        text::occurs_at("\n"@, ""@, 0),
{
    reveal_strlit("\n");
    reveal_strlit("");
    let s = "\n"@;
    assert(s.subrange(0, ""@.len() as int) == ""@);
}

proof fn lemma_row_model_argument()
    ensures
        text::ends_with_text("- model: `"@, "- model: `"@),
{
    reveal_strlit("- model: `");
    let s = "- model: `"@;
    assert(s.subrange(s.len() - "- model: `"@.len(), s.len() as int) == "- model: `"@);
}

proof fn lemma_row_calib()
    ensures
        text::ends_with_text("`\n- calib: `"@, "- calib: `"@),
        text::occurs_at("`\n- calib: `"@, "`"@, 0),
{
    reveal_strlit("`\n- calib: `");
    reveal_strlit("- calib: `");
    reveal_strlit("`");
    let s = "`\n- calib: `"@;
    assert(s.subrange(s.len() - "- calib: `"@.len(), s.len() as int) == "- calib: `"@);
    assert(s.subrange(0, "`"@.len() as int) == "`"@);
}

proof fn lemma_row_target_argument()
    ensures
        text::ends_with_text("`\n- target: `"@, "- target: `"@),
        text::occurs_at("`\n- target: `"@, "`"@, 0),
{
    reveal_strlit("`\n- target: `");
    reveal_strlit("- target: `");
    reveal_strlit("`");
    let s = "`\n- target: `"@;
    assert(s.subrange(s.len() - "- target: `"@.len(), s.len() as int) == "- target: `"@);
    assert(s.subrange(0, "`"@.len() as int) == "`"@);
}

proof fn lemma_row_task_profile()
    ensures
        text::ends_with_text("`\n- task-profile: `"@, "- task-profile: `"@),
        text::occurs_at("`\n- task-profile: `"@, "`"@, 0),
{
    reveal_strlit("`\n- task-profile: `");
    reveal_strlit("- task-profile: `");
    reveal_strlit("`");
    let s = "`\n- task-profile: `"@;
    assert(s.subrange(s.len() - "- task-profile: `"@.len(), s.len() as int)
        == "- task-profile: `"@);
    assert(s.subrange(0, "`"@.len() as int) == "`"@);
}

proof fn lemma_row_budget_argument()
    ensures
        text::ends_with_text("`\n- quality-budget: `"@, "- quality-budget: `"@),
        text::occurs_at("`\n- quality-budget: `"@, "`"@, 0),
{
    reveal_strlit("`\n- quality-budget: `");
    reveal_strlit("- quality-budget: `");
    reveal_strlit("`");
    let s = "`\n- quality-budget: `"@;
    assert(s.subrange(s.len() - "- quality-budget: `"@.len(), s.len() as int)
        == "- quality-budget: `"@);
    assert(s.subrange(0, "`"@.len() as int) == "`"@);
}

proof fn lemma_row_memory_budget()
    ensures
        text::ends_with_text("`\n- memory-budget: "@, "- memory-budget: "@),
        text::occurs_at("`\n- memory-budget: "@, "`"@, 0),
{
    reveal_strlit("`\n- memory-budget: ");
    reveal_strlit("- memory-budget: ");
    reveal_strlit("`");
    let s = "`\n- memory-budget: "@;
    assert(s.subrange(s.len() - "- memory-budget: "@.len(), s.len() as int)
        == "- memory-budget: "@);
    assert(s.subrange(0, "`"@.len() as int) == "`"@);
}

proof fn lemma_row_out()
    ensures
        text::ends_with_text(" bytes\n- out: `"@, "- out: `"@),
        text::occurs_at(" bytes\n- out: `"@, " bytes"@, 0),
{
    reveal_strlit(" bytes\n- out: `");
    reveal_strlit("- out: `");
    reveal_strlit(" bytes");
    let s = " bytes\n- out: `"@;
    assert(s.subrange(s.len() - "- out: `"@.len(), s.len() as int) == "- out: `"@);
    assert(s.subrange(0, " bytes"@.len() as int) == " bytes"@);
}

proof fn lemma_row_quote()
    ensures
        text::occurs_at("`"@, "`"@, 0),
{
    reveal_strlit("`");
    let s = "`"@;
    assert(s.subrange(0, "`"@.len() as int) == "`"@);
}

// ---------------------------------------------------------------------------
// Sections
// ---------------------------------------------------------------------------

/// The report names the target, its backend and the size of the cache.
pub proof fn targets_are_reported(target: Seq<char>, backend: Seq<char>, gb: Seq<char>, bytes: u64)
    ensures
        text::contains_text(
            pack_pass::target_text(target, backend, gb, bytes),
            "| Target | `"@ + target + "` |"@,
        ),
        text::contains_text(
            pack_pass::target_text(target, backend, gb, bytes),
            "| Backend | `"@ + backend + "` |"@,
        ),
        text::contains_text(
            pack_pass::target_text(target, backend, gb, bytes),
            "| Cache capacity | "@ + gb + " GB ("@,
        ),
        text::contains_text(
            pack_pass::target_text(target, backend, gb, bytes),
            " GB ("@ + text::decimal(bytes as nat) + " bytes) |"@,
        ),
{
    let none = Seq::<char>::empty();
    let s0 = "## Target Hardware\n\n| Field | Value |\n|-------|-------|\n| Target | `"@;
    assert(none + s0 == s0);
    let s1 = s0 + target + "` |\n| Backend | `"@;
    lemma_row_target();
    lemma_row_backend();
    text::rows_are_there(
        none,
        "## Target Hardware\n\n| Field | Value |\n|-------|-------|\n| Target | `"@,
        target,
        "` |\n| Backend | `"@,
        "| Target | `"@,
        "` |"@,
    );
    let p1 = s0 + target;
    let s2 = s1 + backend + "` |\n| Cache capacity | "@;
    text::rows_stay(s1, backend, "` |\n| Cache capacity | "@, "| Target | `"@ + target + "` |"@);
    lemma_row_backend();
    lemma_row_cache_capacity();
    text::rows_are_there(
        p1,
        "` |\n| Backend | `"@,
        backend,
        "` |\n| Cache capacity | "@,
        "| Backend | `"@,
        "` |"@,
    );
    let p2 = s1 + backend;
    let s3 = s2 + gb + " GB ("@;
    text::rows_stay(s2, gb, " GB ("@, "| Target | `"@ + target + "` |"@);
    text::rows_stay(s2, gb, " GB ("@, "| Backend | `"@ + backend + "` |"@);
    lemma_row_cache_capacity();
    lemma_row_gb();
    text::rows_are_there(
        p2,
        "` |\n| Cache capacity | "@,
        gb,
        " GB ("@,
        "| Cache capacity | "@,
        " GB ("@,
    );
    let p3 = s2 + gb;
    let s4 = s3 + text::decimal(bytes as nat) + " bytes) |\n\n---\n\n"@;
    text::rows_stay(
        s3,
        text::decimal(bytes as nat),
        " bytes) |\n\n---\n\n"@,
        "| Target | `"@ + target + "` |"@,
    );
    text::rows_stay(
        s3,
        text::decimal(bytes as nat),
        " bytes) |\n\n---\n\n"@,
        "| Backend | `"@ + backend + "` |"@,
    );
    text::rows_stay(
        s3,
        text::decimal(bytes as nat),
        " bytes) |\n\n---\n\n"@,
        "| Cache capacity | "@ + gb + " GB ("@,
    );
    lemma_row_gb();
    lemma_row_bytes();
    text::rows_are_there(
        p3,
        " GB ("@,
        text::decimal(bytes as nat),
        " bytes) |\n\n---\n\n"@,
        " GB ("@,
        " bytes) |"@,
    );
    let p4 = s3 + text::decimal(bytes as nat);
    assert(s4 == pack_pass::target_text(target, backend, gb, bytes));
}

/// The report counts layers, experts, packed layers, shared experts and routers, each
/// behind its own name.
pub proof fn models_are_reported(
    model: Seq<char>,
    layers: u32,
    routed: u64,
    packed: usize,
    shared: usize,
    routers: usize,
)
    ensures
        text::contains_text(
            pack_pass::model_text(model, layers, routed, packed, shared, routers),
            "| Model | `"@ + model + "` |"@,
        ),
        text::contains_text(
            pack_pass::model_text(model, layers, routed, packed, shared, routers),
            "| Layers | "@ + text::decimal(layers as nat) + " |"@,
        ),
        text::contains_text(
            pack_pass::model_text(model, layers, routed, packed, shared, routers),
            "| Routed experts (logical) | "@ + text::decimal(routed as nat) + " |"@,
        ),
        text::contains_text(
            pack_pass::model_text(model, layers, routed, packed, shared, routers),
            "| Packed expert layers | "@ + text::decimal(packed as nat) + " |"@,
        ),
        text::contains_text(
            pack_pass::model_text(model, layers, routed, packed, shared, routers),
            "| Shared experts | "@ + text::decimal(shared as nat) + " |"@,
        ),
        text::contains_text(
            pack_pass::model_text(model, layers, routed, packed, shared, routers),
            "| Routers | "@ + text::decimal(routers as nat) + " |"@,
        ),
{
    let none = Seq::<char>::empty();
    let s0 = "## Model\n\n| Field | Value |\n|-------|-------|\n| Model | `"@;
    assert(none + s0 == s0);
    let s1 = s0 + model + "` |\n| Layers | "@;
    lemma_row_model();
    lemma_row_layers();
    text::rows_are_there(
        none,
        "## Model\n\n| Field | Value |\n|-------|-------|\n| Model | `"@,
        model,
        "` |\n| Layers | "@,
        "| Model | `"@,
        "` |"@,
    );
    let p1 = s0 + model;
    let s2 = s1 + text::decimal(layers as nat) + " |\n| Routed experts (logical) | "@;
    text::rows_stay(
        s1,
        text::decimal(layers as nat),
        " |\n| Routed experts (logical) | "@,
        "| Model | `"@ + model + "` |"@,
    );
    lemma_row_layers();
    lemma_row_routed_experts_logical();
    text::rows_are_there(
        p1,
        "` |\n| Layers | "@,
        text::decimal(layers as nat),
        " |\n| Routed experts (logical) | "@,
        "| Layers | "@,
        " |"@,
    );
    let p2 = s1 + text::decimal(layers as nat);
    let s3 = s2 + text::decimal(routed as nat) + " |\n| Packed expert layers | "@;
    text::rows_stay(
        s2,
        text::decimal(routed as nat),
        " |\n| Packed expert layers | "@,
        "| Model | `"@ + model + "` |"@,
    );
    text::rows_stay(
        s2,
        text::decimal(routed as nat),
        " |\n| Packed expert layers | "@,
        "| Layers | "@ + text::decimal(layers as nat) + " |"@,
    );
    lemma_row_routed_experts_logical();
    lemma_row_packed_expert_layers();
    text::rows_are_there(
        p2,
        " |\n| Routed experts (logical) | "@,
        text::decimal(routed as nat),
        " |\n| Packed expert layers | "@,
        "| Routed experts (logical) | "@,
        " |"@,
    );
    let p3 = s2 + text::decimal(routed as nat);
    let s4 = s3 + text::decimal(packed as nat) + " |\n| Shared experts | "@;
    text::rows_stay(
        s3,
        text::decimal(packed as nat),
        " |\n| Shared experts | "@,
        "| Model | `"@ + model + "` |"@,
    );
    text::rows_stay(
        s3,
        text::decimal(packed as nat),
        " |\n| Shared experts | "@,
        "| Layers | "@ + text::decimal(layers as nat) + " |"@,
    );
    text::rows_stay(
        s3,
        text::decimal(packed as nat),
        " |\n| Shared experts | "@,
        "| Routed experts (logical) | "@ + text::decimal(routed as nat) + " |"@,
    );
    lemma_row_packed_expert_layers();
    lemma_row_shared_experts();
    text::rows_are_there(
        p3,
        " |\n| Packed expert layers | "@,
        text::decimal(packed as nat),
        " |\n| Shared experts | "@,
        "| Packed expert layers | "@,
        " |"@,
    );
    let p4 = s3 + text::decimal(packed as nat);
    let s5 = s4 + text::decimal(shared as nat) + " |\n| Routers | "@;
    text::rows_stay(
        s4,
        text::decimal(shared as nat),
        " |\n| Routers | "@,
        "| Model | `"@ + model + "` |"@,
    );
    text::rows_stay(
        s4,
        text::decimal(shared as nat),
        " |\n| Routers | "@,
        "| Layers | "@ + text::decimal(layers as nat) + " |"@,
    );
    text::rows_stay(
        s4,
        text::decimal(shared as nat),
        " |\n| Routers | "@,
        "| Routed experts (logical) | "@ + text::decimal(routed as nat) + " |"@,
    );
    text::rows_stay(
        s4,
        text::decimal(shared as nat),
        " |\n| Routers | "@,
        "| Packed expert layers | "@ + text::decimal(packed as nat) + " |"@,
    );
    lemma_row_shared_experts();
    lemma_row_routers();
    text::rows_are_there(
        p4,
        " |\n| Shared experts | "@,
        text::decimal(shared as nat),
        " |\n| Routers | "@,
        "| Shared experts | "@,
        " |"@,
    );
    let p5 = s4 + text::decimal(shared as nat);
    let s6 = s5 + text::decimal(routers as nat) + " |\n\n---\n\n"@;
    text::rows_stay(
        s5,
        text::decimal(routers as nat),
        " |\n\n---\n\n"@,
        "| Model | `"@ + model + "` |"@,
    );
    text::rows_stay(
        s5,
        text::decimal(routers as nat),
        " |\n\n---\n\n"@,
        "| Layers | "@ + text::decimal(layers as nat) + " |"@,
    );
    text::rows_stay(
        s5,
        text::decimal(routers as nat),
        " |\n\n---\n\n"@,
        "| Routed experts (logical) | "@ + text::decimal(routed as nat) + " |"@,
    );
    text::rows_stay(
        s5,
        text::decimal(routers as nat),
        " |\n\n---\n\n"@,
        "| Packed expert layers | "@ + text::decimal(packed as nat) + " |"@,
    );
    text::rows_stay(
        s5,
        text::decimal(routers as nat),
        " |\n\n---\n\n"@,
        "| Shared experts | "@ + text::decimal(shared as nat) + " |"@,
    );
    lemma_row_routers();
    lemma_row_section_end();
    text::rows_are_there(
        p5,
        " |\n| Routers | "@,
        text::decimal(routers as nat),
        " |\n\n---\n\n"@,
        "| Routers | "@,
        " |"@,
    );
    let p6 = s5 + text::decimal(routers as nat);
    assert(s6 == pack_pass::model_text(model, layers, routed, packed, shared, routers));
}

/// The report tells how many experts were seen of how many, and whether pruning is
/// enabled.
pub proof fn coverage_is_reported(calibrated: usize, total: u64, pct: Seq<char>, enabled: bool)
    ensures
        text::contains_text(
            pack_pass::coverage_text(calibrated, total, pct, enabled),
            "| Calibrated experts | "@ + text::decimal(calibrated as nat) + " |"@,
        ),
        text::contains_text(
            pack_pass::coverage_text(calibrated, total, pct, enabled),
            "| Total experts (layout) | "@ + text::decimal(total as nat) + " |"@,
        ),
        text::contains_text(
            pack_pass::coverage_text(calibrated, total, pct, enabled),
            "| Coverage ratio | "@ + pct + "% |"@,
        ),
        text::contains_text(
            pack_pass::coverage_text(calibrated, total, pct, enabled),
            "| Pruning enabled | "@ + layout_pass::bool_text(enabled) + " |"@,
        ),
{
    let none = Seq::<char>::empty();
    let s0 = "## Calibration Coverage\n\n| Metric | Value |\n|--------|-------|\n| Calibrated experts | "@;
    assert(none + s0 == s0);
    let s1 = s0 + text::decimal(calibrated as nat) + " |\n| Total experts (layout) | "@;
    lemma_row_calibrated_experts();
    lemma_row_total_experts_layout();
    text::rows_are_there(
        none,
        "## Calibration Coverage\n\n| Metric | Value |\n|--------|-------|\n| Calibrated experts | "@,
        text::decimal(calibrated as nat),
        " |\n| Total experts (layout) | "@,
        "| Calibrated experts | "@,
        " |"@,
    );
    let p1 = s0 + text::decimal(calibrated as nat);
    let s2 = s1 + text::decimal(total as nat) + " |\n| Coverage ratio | "@;
    text::rows_stay(
        s1,
        text::decimal(total as nat),
        " |\n| Coverage ratio | "@,
        "| Calibrated experts | "@ + text::decimal(calibrated as nat) + " |"@,
    );
    lemma_row_total_experts_layout();
    lemma_row_coverage_ratio();
    text::rows_are_there(
        p1,
        " |\n| Total experts (layout) | "@,
        text::decimal(total as nat),
        " |\n| Coverage ratio | "@,
        "| Total experts (layout) | "@,
        " |"@,
    );
    let p2 = s1 + text::decimal(total as nat);
    let s3 = s2 + pct + "% |\n| Pruning enabled | "@;
    text::rows_stay(
        s2,
        pct,
        "% |\n| Pruning enabled | "@,
        "| Calibrated experts | "@ + text::decimal(calibrated as nat) + " |"@,
    );
    text::rows_stay(
        s2,
        pct,
        "% |\n| Pruning enabled | "@,
        "| Total experts (layout) | "@ + text::decimal(total as nat) + " |"@,
    );
    lemma_row_coverage_ratio();
    lemma_row_pruning_enabled();
    text::rows_are_there(
        p2,
        " |\n| Coverage ratio | "@,
        pct,
        "% |\n| Pruning enabled | "@,
        "| Coverage ratio | "@,
        "% |"@,
    );
    let p3 = s2 + pct;
    let s4 = s3 + layout_pass::bool_text(enabled) + " |\n\n---\n\n"@;
    text::rows_stay(
        s3,
        layout_pass::bool_text(enabled),
        " |\n\n---\n\n"@,
        "| Calibrated experts | "@ + text::decimal(calibrated as nat) + " |"@,
    );
    text::rows_stay(
        s3,
        layout_pass::bool_text(enabled),
        " |\n\n---\n\n"@,
        "| Total experts (layout) | "@ + text::decimal(total as nat) + " |"@,
    );
    text::rows_stay(
        s3,
        layout_pass::bool_text(enabled),
        " |\n\n---\n\n"@,
        "| Coverage ratio | "@ + pct + "% |"@,
    );
    lemma_row_pruning_enabled();
    lemma_row_section_end();
    text::rows_are_there(
        p3,
        "% |\n| Pruning enabled | "@,
        layout_pass::bool_text(enabled),
        " |\n\n---\n\n"@,
        "| Pruning enabled | "@,
        " |"@,
    );
    let p4 = s3 + layout_pass::bool_text(enabled);
    assert(s4 == pack_pass::coverage_text(calibrated, total, pct, enabled));
}

/// The report counts the layers of each phase behind its own name.
pub proof fn phases_are_reported(
    provenance: Seq<char>,
    frontier: usize,
    steering: usize,
    transport: usize,
    projection: usize,
)
    ensures
        text::contains_text(
            pack_pass::phase_text(provenance, frontier, steering, transport, projection),
            "Phase classification: "@ + provenance + ""@,
        ),
        text::contains_text(
            pack_pass::phase_text(provenance, frontier, steering, transport, projection),
            "| integrity_frontier | "@ + text::decimal(frontier as nat) + " | Protected — early token formation |"@,
        ),
        text::contains_text(
            pack_pass::phase_text(provenance, frontier, steering, transport, projection),
            "| steering | "@ + text::decimal(steering as nat) + " | Protected — GQA semantic routing |"@,
        ),
        text::contains_text(
            pack_pass::phase_text(provenance, frontier, steering, transport, projection),
            "| transport | "@ + text::decimal(transport as nat) + " | Optimizable — bulk FFN transport |"@,
        ),
        text::contains_text(
            pack_pass::phase_text(provenance, frontier, steering, transport, projection),
            "| projection | "@ + text::decimal(projection as nat) + " | Protected — late output projection |"@,
        ),
{
    let none = Seq::<char>::empty();
    let s0 = "## Phase Summary\n\nPhase classification: "@;
    assert(none + s0 == s0);
    let s1 = s0 + provenance
        + "\n\n| Phase | Layers | Role |\n|-------|--------|------|\n| integrity_frontier | "@;
    lemma_row_phase_classification();
    lemma_row_integrity_frontier();
    text::rows_are_there(
        none,
        "## Phase Summary\n\nPhase classification: "@,
        provenance,
        "\n\n| Phase | Layers | Role |\n|-------|--------|------|\n| integrity_frontier | "@,
        "Phase classification: "@,
        ""@,
    );
    let p1 = s0 + provenance;
    let s2 = s1 + text::decimal(frontier as nat)
        + " | Protected — early token formation |\n| steering | "@;
    text::rows_stay(
        s1,
        text::decimal(frontier as nat),
        " | Protected — early token formation |\n| steering | "@,
        "Phase classification: "@ + provenance + ""@,
    );
    lemma_row_integrity_frontier();
    lemma_row_steering();
    text::rows_are_there(
        p1,
        "\n\n| Phase | Layers | Role |\n|-------|--------|------|\n| integrity_frontier | "@,
        text::decimal(frontier as nat),
        " | Protected — early token formation |\n| steering | "@,
        "| integrity_frontier | "@,
        " | Protected — early token formation |"@,
    );
    let p2 = s1 + text::decimal(frontier as nat);
    let s3 = s2 + text::decimal(steering as nat)
        + " | Protected — GQA semantic routing |\n| transport | "@;
    text::rows_stay(
        s2,
        text::decimal(steering as nat),
        " | Protected — GQA semantic routing |\n| transport | "@,
        "Phase classification: "@ + provenance + ""@,
    );
    text::rows_stay(
        s2,
        text::decimal(steering as nat),
        " | Protected — GQA semantic routing |\n| transport | "@,
        "| integrity_frontier | "@ + text::decimal(frontier as nat) + " | Protected — early token formation |"@,
    );
    lemma_row_steering();
    lemma_row_transport();
    text::rows_are_there(
        p2,
        " | Protected — early token formation |\n| steering | "@,
        text::decimal(steering as nat),
        " | Protected — GQA semantic routing |\n| transport | "@,
        "| steering | "@,
        " | Protected — GQA semantic routing |"@,
    );
    let p3 = s2 + text::decimal(steering as nat);
    let s4 = s3 + text::decimal(transport as nat)
        + " | Optimizable — bulk FFN transport |\n| projection | "@;
    text::rows_stay(
        s3,
        text::decimal(transport as nat),
        " | Optimizable — bulk FFN transport |\n| projection | "@,
        "Phase classification: "@ + provenance + ""@,
    );
    text::rows_stay(
        s3,
        text::decimal(transport as nat),
        " | Optimizable — bulk FFN transport |\n| projection | "@,
        "| integrity_frontier | "@ + text::decimal(frontier as nat) + " | Protected — early token formation |"@,
    );
    text::rows_stay(
        s3,
        text::decimal(transport as nat),
        " | Optimizable — bulk FFN transport |\n| projection | "@,
        "| steering | "@ + text::decimal(steering as nat) + " | Protected — GQA semantic routing |"@,
    );
    lemma_row_transport();
    lemma_row_projection();
    text::rows_are_there(
        p3,
        " | Protected — GQA semantic routing |\n| transport | "@,
        text::decimal(transport as nat),
        " | Optimizable — bulk FFN transport |\n| projection | "@,
        "| transport | "@,
        " | Optimizable — bulk FFN transport |"@,
    );
    let p4 = s3 + text::decimal(transport as nat);
    let s5 = s4 + text::decimal(projection as nat)
        + " | Protected — late output projection |\n\n---\n\n"@;
    text::rows_stay(
        s4,
        text::decimal(projection as nat),
        " | Protected — late output projection |\n\n---\n\n"@,
        "Phase classification: "@ + provenance + ""@,
    );
    text::rows_stay(
        s4,
        text::decimal(projection as nat),
        " | Protected — late output projection |\n\n---\n\n"@,
        "| integrity_frontier | "@ + text::decimal(frontier as nat) + " | Protected — early token formation |"@,
    );
    text::rows_stay(
        s4,
        text::decimal(projection as nat),
        " | Protected — late output projection |\n\n---\n\n"@,
        "| steering | "@ + text::decimal(steering as nat) + " | Protected — GQA semantic routing |"@,
    );
    text::rows_stay(
        s4,
        text::decimal(projection as nat),
        " | Protected — late output projection |\n\n---\n\n"@,
        "| transport | "@ + text::decimal(transport as nat) + " | Optimizable — bulk FFN transport |"@,
    );
    lemma_row_projection();
    lemma_row_protected_late_output_projection();
    text::rows_are_there(
        p4,
        " | Optimizable — bulk FFN transport |\n| projection | "@,
        text::decimal(projection as nat),
        " | Protected — late output projection |\n\n---\n\n"@,
        "| projection | "@,
        " | Protected — late output projection |"@,
    );
    let p5 = s4 + text::decimal(projection as nat);
    assert(s5 == pack_pass::phase_text(provenance, frontier, steering, transport, projection));
}

/// The report counts the experts of each tier behind its own name.
pub proof fn tiers_are_reported(hot: usize, warm: usize, cold: usize)
    ensures
        text::contains_text(
            pack_pass::tier_text(hot, warm, cold),
            "| 🔥 Hot | "@ + text::decimal(hot as nat) + " |"@,
        ),
        text::contains_text(
            pack_pass::tier_text(hot, warm, cold),
            "| 🌡️ Warm | "@ + text::decimal(warm as nat) + " |"@,
        ),
        text::contains_text(
            pack_pass::tier_text(hot, warm, cold),
            "| 🧊 Cold | "@ + text::decimal(cold as nat) + " |"@,
        ),
{
    let none = Seq::<char>::empty();
    let s0 = "## Expert Tier Distribution\n\n| Tier | Count |\n|------|-------|\n| 🔥 Hot | "@;
    assert(none + s0 == s0);
    let s1 = s0 + text::decimal(hot as nat) + " |\n| 🌡️ Warm | "@;
    lemma_row_hot();
    lemma_row_warm();
    text::rows_are_there(
        none,
        "## Expert Tier Distribution\n\n| Tier | Count |\n|------|-------|\n| 🔥 Hot | "@,
        text::decimal(hot as nat),
        " |\n| 🌡️ Warm | "@,
        "| 🔥 Hot | "@,
        " |"@,
    );
    let p1 = s0 + text::decimal(hot as nat);
    let s2 = s1 + text::decimal(warm as nat) + " |\n| 🧊 Cold | "@;
    text::rows_stay(
        s1,
        text::decimal(warm as nat),
        " |\n| 🧊 Cold | "@,
        "| 🔥 Hot | "@ + text::decimal(hot as nat) + " |"@,
    );
    lemma_row_warm();
    lemma_row_cold();
    text::rows_are_there(
        p1,
        " |\n| 🌡️ Warm | "@,
        text::decimal(warm as nat),
        " |\n| 🧊 Cold | "@,
        "| 🌡️ Warm | "@,
        " |"@,
    );
    let p2 = s1 + text::decimal(warm as nat);
    let s3 = s2 + text::decimal(cold as nat) + " |\n\n---\n\n"@;
    text::rows_stay(
        s2,
        text::decimal(cold as nat),
        " |\n\n---\n\n"@,
        "| 🔥 Hot | "@ + text::decimal(hot as nat) + " |"@,
    );
    text::rows_stay(
        s2,
        text::decimal(cold as nat),
        " |\n\n---\n\n"@,
        "| 🌡️ Warm | "@ + text::decimal(warm as nat) + " |"@,
    );
    lemma_row_cold();
    lemma_row_section_end();
    text::rows_are_there(
        p2,
        " |\n| 🧊 Cold | "@,
        text::decimal(cold as nat),
        " |\n\n---\n\n"@,
        "| 🧊 Cold | "@,
        " |"@,
    );
    let p3 = s2 + text::decimal(cold as nat);
    assert(s3 == pack_pass::tier_text(hot, warm, cold));
}

/// The report counts the parts of each format behind its own name.
pub proof fn formats_are_reported(q8: usize, q5: usize, q4: usize, iq3: usize, iq2: usize)
    ensures
        text::contains_text(
            pack_pass::precision_text(q8, q5, q4, iq3, iq2),
            "| q8 | "@ + text::decimal(q8 as nat) + " | Routers (always) |"@,
        ),
        text::contains_text(
            pack_pass::precision_text(q8, q5, q4, iq3, iq2),
            "| q5 | "@ + text::decimal(q5 as nat) + " | Protected layers, hot steering |"@,
        ),
        text::contains_text(
            pack_pass::precision_text(q8, q5, q4, iq3, iq2),
            "| q4 | "@ + text::decimal(q4 as nat) + " | Warm transport, hot transport |"@,
        ),
        text::contains_text(
            pack_pass::precision_text(q8, q5, q4, iq3, iq2),
            "| iq3 | "@ + text::decimal(iq3 as nat) + " | Cold transport candidates |"@,
        ),
        text::contains_text(
            pack_pass::precision_text(q8, q5, q4, iq3, iq2),
            "| iq2 | "@ + text::decimal(iq2 as nat) + " | Prune candidates only |"@,
        ),
{
    let none = Seq::<char>::empty();
    let s0 = "## Precision Summary\n\n| Format | Count | Note |\n|--------|-------|------|\n| q8 | "@;
    assert(none + s0 == s0);
    let s1 = s0 + text::decimal(q8 as nat) + " | Routers (always) |\n| q5 | "@;
    lemma_row_q8();
    lemma_row_q5();
    text::rows_are_there(
        none,
        "## Precision Summary\n\n| Format | Count | Note |\n|--------|-------|------|\n| q8 | "@,
        text::decimal(q8 as nat),
        " | Routers (always) |\n| q5 | "@,
        "| q8 | "@,
        " | Routers (always) |"@,
    );
    let p1 = s0 + text::decimal(q8 as nat);
    let s2 = s1 + text::decimal(q5 as nat) + " | Protected layers, hot steering |\n| q4 | "@;
    text::rows_stay(
        s1,
        text::decimal(q5 as nat),
        " | Protected layers, hot steering |\n| q4 | "@,
        "| q8 | "@ + text::decimal(q8 as nat) + " | Routers (always) |"@,
    );
    lemma_row_q5();
    lemma_row_q4();
    text::rows_are_there(
        p1,
        " | Routers (always) |\n| q5 | "@,
        text::decimal(q5 as nat),
        " | Protected layers, hot steering |\n| q4 | "@,
        "| q5 | "@,
        " | Protected layers, hot steering |"@,
    );
    let p2 = s1 + text::decimal(q5 as nat);
    let s3 = s2 + text::decimal(q4 as nat) + " | Warm transport, hot transport |\n| iq3 | "@;
    text::rows_stay(
        s2,
        text::decimal(q4 as nat),
        " | Warm transport, hot transport |\n| iq3 | "@,
        "| q8 | "@ + text::decimal(q8 as nat) + " | Routers (always) |"@,
    );
    text::rows_stay(
        s2,
        text::decimal(q4 as nat),
        " | Warm transport, hot transport |\n| iq3 | "@,
        "| q5 | "@ + text::decimal(q5 as nat) + " | Protected layers, hot steering |"@,
    );
    lemma_row_q4();
    lemma_row_iq3();
    text::rows_are_there(
        p2,
        " | Protected layers, hot steering |\n| q4 | "@,
        text::decimal(q4 as nat),
        " | Warm transport, hot transport |\n| iq3 | "@,
        "| q4 | "@,
        " | Warm transport, hot transport |"@,
    );
    let p3 = s2 + text::decimal(q4 as nat);
    let s4 = s3 + text::decimal(iq3 as nat) + " | Cold transport candidates |\n| iq2 | "@;
    text::rows_stay(
        s3,
        text::decimal(iq3 as nat),
        " | Cold transport candidates |\n| iq2 | "@,
        "| q8 | "@ + text::decimal(q8 as nat) + " | Routers (always) |"@,
    );
    text::rows_stay(
        s3,
        text::decimal(iq3 as nat),
        " | Cold transport candidates |\n| iq2 | "@,
        "| q5 | "@ + text::decimal(q5 as nat) + " | Protected layers, hot steering |"@,
    );
    text::rows_stay(
        s3,
        text::decimal(iq3 as nat),
        " | Cold transport candidates |\n| iq2 | "@,
        "| q4 | "@ + text::decimal(q4 as nat) + " | Warm transport, hot transport |"@,
    );
    lemma_row_iq3();
    lemma_row_iq2();
    text::rows_are_there(
        p3,
        " | Warm transport, hot transport |\n| iq3 | "@,
        text::decimal(iq3 as nat),
        " | Cold transport candidates |\n| iq2 | "@,
        "| iq3 | "@,
        " | Cold transport candidates |"@,
    );
    let p4 = s3 + text::decimal(iq3 as nat);
    let s5 = s4 + text::decimal(iq2 as nat) + " | Prune candidates only |\n\n---\n\n"@;
    text::rows_stay(
        s4,
        text::decimal(iq2 as nat),
        " | Prune candidates only |\n\n---\n\n"@,
        "| q8 | "@ + text::decimal(q8 as nat) + " | Routers (always) |"@,
    );
    text::rows_stay(
        s4,
        text::decimal(iq2 as nat),
        " | Prune candidates only |\n\n---\n\n"@,
        "| q5 | "@ + text::decimal(q5 as nat) + " | Protected layers, hot steering |"@,
    );
    text::rows_stay(
        s4,
        text::decimal(iq2 as nat),
        " | Prune candidates only |\n\n---\n\n"@,
        "| q4 | "@ + text::decimal(q4 as nat) + " | Warm transport, hot transport |"@,
    );
    text::rows_stay(
        s4,
        text::decimal(iq2 as nat),
        " | Prune candidates only |\n\n---\n\n"@,
        "| iq3 | "@ + text::decimal(iq3 as nat) + " | Cold transport candidates |"@,
    );
    lemma_row_iq2();
    lemma_row_prune_candidates_only();
    text::rows_are_there(
        p4,
        " | Cold transport candidates |\n| iq2 | "@,
        text::decimal(iq2 as nat),
        " | Prune candidates only |\n\n---\n\n"@,
        "| iq2 | "@,
        " | Prune candidates only |"@,
    );
    let p5 = s4 + text::decimal(iq2 as nat);
    assert(s5 == pack_pass::precision_text(q8, q5, q4, iq3, iq2));
}

/// The report counts the experts of each action behind its own name.
pub proof fn actions_are_reported(x: PruningPlanSummary)
    ensures
        text::contains_text(
            pack_pass::actions_text(x),
            "> ⚠️  **estimated_only**: "@ + pack_pass::flag_text(x.estimated_only) + " — these are routing-trace estimates."@,
        ),
        text::contains_text(
            pack_pass::actions_text(x),
            "> ⚠️  **requires_verification**: "@ + pack_pass::flag_text(x.requires_verification) + " — smoke + oracle trace must pass before applying."@,
        ),
        text::contains_text(
            pack_pass::actions_text(x),
            "| protect | "@ + text::decimal(x.protect_count as nat) + " | Safety-gated: never touched |"@,
        ),
        text::contains_text(
            pack_pass::actions_text(x),
            "| keep | "@ + text::decimal(x.keep_count as nat) + " | Retained at current precision |"@,
        ),
        text::contains_text(
            pack_pass::actions_text(x),
            "| cold_tier | "@ + text::decimal(x.cold_tier_count as nat) + " | Demoted tier, no weight change |"@,
        ),
        text::contains_text(
            pack_pass::actions_text(x),
            "| compress | "@ + text::decimal(x.compress_count as nat) + " | Quantized to iq3 |"@,
        ),
        text::contains_text(
            pack_pass::actions_text(x),
            "| prune_candidate | "@ + text::decimal(x.prune_candidate_count as nat) + " | Quantized to iq2 (candidates) |"@,
        ),
{
    let none = Seq::<char>::empty();
    let s0 = "## Pruning Summary\n\n> ⚠️  **estimated_only**: "@;
    assert(none + s0 == s0);
    let s1 = s0 + pack_pass::flag_text(x.estimated_only)
        + " — these are routing-trace estimates.\n> ⚠️  **requires_verification**: "@;
    lemma_row_estimated_only();
    lemma_row_requires_verification();
    text::rows_are_there(
        none,
        "## Pruning Summary\n\n> ⚠️  **estimated_only**: "@,
        pack_pass::flag_text(x.estimated_only),
        " — these are routing-trace estimates.\n> ⚠️  **requires_verification**: "@,
        "> ⚠️  **estimated_only**: "@,
        " — these are routing-trace estimates."@,
    );
    let p1 = s0 + pack_pass::flag_text(x.estimated_only);
    let s2 = s1 + pack_pass::flag_text(x.requires_verification)
        + " — smoke + oracle trace must pass before applying.\n\n| Action | Count | Description |\n|--------|-------|-------------|\n| protect | "@;
    text::rows_stay(
        s1,
        pack_pass::flag_text(x.requires_verification),
        " — smoke + oracle trace must pass before applying.\n\n| Action | Count | Description |\n|--------|-------|-------------|\n| protect | "@,
        "> ⚠️  **estimated_only**: "@ + pack_pass::flag_text(x.estimated_only) + " — these are routing-trace estimates."@,
    );
    lemma_row_requires_verification();
    lemma_row_protect();
    text::rows_are_there(
        p1,
        " — these are routing-trace estimates.\n> ⚠️  **requires_verification**: "@,
        pack_pass::flag_text(x.requires_verification),
        " — smoke + oracle trace must pass before applying.\n\n| Action | Count | Description |\n|--------|-------|-------------|\n| protect | "@,
        "> ⚠️  **requires_verification**: "@,
        " — smoke + oracle trace must pass before applying."@,
    );
    let p2 = s1 + pack_pass::flag_text(x.requires_verification);
    let s3 = s2 + text::decimal(x.protect_count as nat)
        + " | Safety-gated: never touched |\n| keep | "@;
    text::rows_stay(
        s2,
        text::decimal(x.protect_count as nat),
        " | Safety-gated: never touched |\n| keep | "@,
        "> ⚠️  **estimated_only**: "@ + pack_pass::flag_text(x.estimated_only) + " — these are routing-trace estimates."@,
    );
    text::rows_stay(
        s2,
        text::decimal(x.protect_count as nat),
        " | Safety-gated: never touched |\n| keep | "@,
        "> ⚠️  **requires_verification**: "@ + pack_pass::flag_text(x.requires_verification) + " — smoke + oracle trace must pass before applying."@,
    );
    lemma_row_protect();
    lemma_row_keep();
    text::rows_are_there(
        p2,
        " — smoke + oracle trace must pass before applying.\n\n| Action | Count | Description |\n|--------|-------|-------------|\n| protect | "@,
        text::decimal(x.protect_count as nat),
        " | Safety-gated: never touched |\n| keep | "@,
        "| protect | "@,
        " | Safety-gated: never touched |"@,
    );
    let p3 = s2 + text::decimal(x.protect_count as nat);
    let s4 = s3 + text::decimal(x.keep_count as nat)
        + " | Retained at current precision |\n| cold_tier | "@;
    text::rows_stay(
        s3,
        text::decimal(x.keep_count as nat),
        " | Retained at current precision |\n| cold_tier | "@,
        "> ⚠️  **estimated_only**: "@ + pack_pass::flag_text(x.estimated_only) + " — these are routing-trace estimates."@,
    );
    text::rows_stay(
        s3,
        text::decimal(x.keep_count as nat),
        " | Retained at current precision |\n| cold_tier | "@,
        "> ⚠️  **requires_verification**: "@ + pack_pass::flag_text(x.requires_verification) + " — smoke + oracle trace must pass before applying."@,
    );
    text::rows_stay(
        s3,
        text::decimal(x.keep_count as nat),
        " | Retained at current precision |\n| cold_tier | "@,
        "| protect | "@ + text::decimal(x.protect_count as nat) + " | Safety-gated: never touched |"@,
    );
    lemma_row_keep();
    lemma_row_cold_tier();
    text::rows_are_there(
        p3,
        " | Safety-gated: never touched |\n| keep | "@,
        text::decimal(x.keep_count as nat),
        " | Retained at current precision |\n| cold_tier | "@,
        "| keep | "@,
        " | Retained at current precision |"@,
    );
    let p4 = s3 + text::decimal(x.keep_count as nat);
    let s5 = s4 + text::decimal(x.cold_tier_count as nat)
        + " | Demoted tier, no weight change |\n| compress | "@;
    text::rows_stay(
        s4,
        text::decimal(x.cold_tier_count as nat),
        " | Demoted tier, no weight change |\n| compress | "@,
        "> ⚠️  **estimated_only**: "@ + pack_pass::flag_text(x.estimated_only) + " — these are routing-trace estimates."@,
    );
    text::rows_stay(
        s4,
        text::decimal(x.cold_tier_count as nat),
        " | Demoted tier, no weight change |\n| compress | "@,
        "> ⚠️  **requires_verification**: "@ + pack_pass::flag_text(x.requires_verification) + " — smoke + oracle trace must pass before applying."@,
    );
    text::rows_stay(
        s4,
        text::decimal(x.cold_tier_count as nat),
        " | Demoted tier, no weight change |\n| compress | "@,
        "| protect | "@ + text::decimal(x.protect_count as nat) + " | Safety-gated: never touched |"@,
    );
    text::rows_stay(
        s4,
        text::decimal(x.cold_tier_count as nat),
        " | Demoted tier, no weight change |\n| compress | "@,
        "| keep | "@ + text::decimal(x.keep_count as nat) + " | Retained at current precision |"@,
    );
    lemma_row_cold_tier();
    lemma_row_compress();
    text::rows_are_there(
        p4,
        " | Retained at current precision |\n| cold_tier | "@,
        text::decimal(x.cold_tier_count as nat),
        " | Demoted tier, no weight change |\n| compress | "@,
        "| cold_tier | "@,
        " | Demoted tier, no weight change |"@,
    );
    let p5 = s4 + text::decimal(x.cold_tier_count as nat);
    let s6 = s5 + text::decimal(x.compress_count as nat)
        + " | Quantized to iq3 |\n| prune_candidate | "@;
    text::rows_stay(
        s5,
        text::decimal(x.compress_count as nat),
        " | Quantized to iq3 |\n| prune_candidate | "@,
        "> ⚠️  **estimated_only**: "@ + pack_pass::flag_text(x.estimated_only) + " — these are routing-trace estimates."@,
    );
    text::rows_stay(
        s5,
        text::decimal(x.compress_count as nat),
        " | Quantized to iq3 |\n| prune_candidate | "@,
        "> ⚠️  **requires_verification**: "@ + pack_pass::flag_text(x.requires_verification) + " — smoke + oracle trace must pass before applying."@,
    );
    text::rows_stay(
        s5,
        text::decimal(x.compress_count as nat),
        " | Quantized to iq3 |\n| prune_candidate | "@,
        "| protect | "@ + text::decimal(x.protect_count as nat) + " | Safety-gated: never touched |"@,
    );
    text::rows_stay(
        s5,
        text::decimal(x.compress_count as nat),
        " | Quantized to iq3 |\n| prune_candidate | "@,
        "| keep | "@ + text::decimal(x.keep_count as nat) + " | Retained at current precision |"@,
    );
    text::rows_stay(
        s5,
        text::decimal(x.compress_count as nat),
        " | Quantized to iq3 |\n| prune_candidate | "@,
        "| cold_tier | "@ + text::decimal(x.cold_tier_count as nat) + " | Demoted tier, no weight change |"@,
    );
    lemma_row_compress();
    lemma_row_prune_candidate();
    text::rows_are_there(
        p5,
        " | Demoted tier, no weight change |\n| compress | "@,
        text::decimal(x.compress_count as nat),
        " | Quantized to iq3 |\n| prune_candidate | "@,
        "| compress | "@,
        " | Quantized to iq3 |"@,
    );
    let p6 = s5 + text::decimal(x.compress_count as nat);
    let s7 = s6 + text::decimal(x.prune_candidate_count as nat)
        + " | Quantized to iq2 (candidates) |\n\n"@;
    text::rows_stay(
        s6,
        text::decimal(x.prune_candidate_count as nat),
        " | Quantized to iq2 (candidates) |\n\n"@,
        "> ⚠️  **estimated_only**: "@ + pack_pass::flag_text(x.estimated_only) + " — these are routing-trace estimates."@,
    );
    text::rows_stay(
        s6,
        text::decimal(x.prune_candidate_count as nat),
        " | Quantized to iq2 (candidates) |\n\n"@,
        "> ⚠️  **requires_verification**: "@ + pack_pass::flag_text(x.requires_verification) + " — smoke + oracle trace must pass before applying."@,
    );
    text::rows_stay(
        s6,
        text::decimal(x.prune_candidate_count as nat),
        " | Quantized to iq2 (candidates) |\n\n"@,
        "| protect | "@ + text::decimal(x.protect_count as nat) + " | Safety-gated: never touched |"@,
    );
    text::rows_stay(
        s6,
        text::decimal(x.prune_candidate_count as nat),
        " | Quantized to iq2 (candidates) |\n\n"@,
        "| keep | "@ + text::decimal(x.keep_count as nat) + " | Retained at current precision |"@,
    );
    text::rows_stay(
        s6,
        text::decimal(x.prune_candidate_count as nat),
        " | Quantized to iq2 (candidates) |\n\n"@,
        "| cold_tier | "@ + text::decimal(x.cold_tier_count as nat) + " | Demoted tier, no weight change |"@,
    );
    text::rows_stay(
        s6,
        text::decimal(x.prune_candidate_count as nat),
        " | Quantized to iq2 (candidates) |\n\n"@,
        "| compress | "@ + text::decimal(x.compress_count as nat) + " | Quantized to iq3 |"@,
    );
    lemma_row_prune_candidate();
    lemma_row_quantized_to_iq2_candidates();
    text::rows_are_there(
        p6,
        " | Quantized to iq3 |\n| prune_candidate | "@,
        text::decimal(x.prune_candidate_count as nat),
        " | Quantized to iq2 (candidates) |\n\n"@,
        "| prune_candidate | "@,
        " | Quantized to iq2 (candidates) |"@,
    );
    let p7 = s6 + text::decimal(x.prune_candidate_count as nat);
    assert(s7 == pack_pass::actions_text(x));
}

/// The report tells the budget, the loss that it allows, the loss that is estimated
/// and whether it is kept.
pub proof fn losses_are_reported(
    budget: Seq<char>,
    threshold: Seq<char>,
    threshold_pct: Seq<char>,
    loss: Seq<char>,
    loss_pct: Seq<char>,
    safe: bool,
)
    ensures
        text::contains_text(
            pack_pass::budget_text(budget, threshold, threshold_pct, loss, loss_pct, safe),
            "| Quality budget | "@ + budget + " |"@,
        ),
        text::contains_text(
            pack_pass::budget_text(budget, threshold, threshold_pct, loss, loss_pct, safe),
            "| Mass-loss threshold | "@ + threshold + " ("@,
        ),
        text::contains_text(
            pack_pass::budget_text(budget, threshold, threshold_pct, loss, loss_pct, safe),
            " ("@ + threshold_pct + "%) |"@,
        ),
        text::contains_text(
            pack_pass::budget_text(budget, threshold, threshold_pct, loss, loss_pct, safe),
            "| Estimated routing mass loss | "@ + loss + " ("@,
        ),
        text::contains_text(
            pack_pass::budget_text(budget, threshold, threshold_pct, loss, loss_pct, safe),
            " ("@ + loss_pct + "%) |"@,
        ),
        text::contains_text(
            pack_pass::budget_text(budget, threshold, threshold_pct, loss, loss_pct, safe),
            "| Within budget | "@ + layout_pass::bool_text(safe) + " |"@,
        ),
{
    let none = Seq::<char>::empty();
    let s0 = "| Budget Metric | Value |\n|---------------|-------|\n| Quality budget | "@;
    assert(none + s0 == s0);
    let s1 = s0 + budget + " |\n| Mass-loss threshold | "@;
    lemma_row_quality_budget();
    lemma_row_mass_loss_threshold();
    text::rows_are_there(
        none,
        "| Budget Metric | Value |\n|---------------|-------|\n| Quality budget | "@,
        budget,
        " |\n| Mass-loss threshold | "@,
        "| Quality budget | "@,
        " |"@,
    );
    let p1 = s0 + budget;
    let s2 = s1 + threshold + " ("@;
    text::rows_stay(s1, threshold, " ("@, "| Quality budget | "@ + budget + " |"@);
    lemma_row_mass_loss_threshold();
    lemma_row_bracket();
    text::rows_are_there(
        p1,
        " |\n| Mass-loss threshold | "@,
        threshold,
        " ("@,
        "| Mass-loss threshold | "@,
        " ("@,
    );
    let p2 = s1 + threshold;
    let s3 = s2 + threshold_pct + "%) |\n| Estimated routing mass loss | "@;
    text::rows_stay(
        s2,
        threshold_pct,
        "%) |\n| Estimated routing mass loss | "@,
        "| Quality budget | "@ + budget + " |"@,
    );
    text::rows_stay(
        s2,
        threshold_pct,
        "%) |\n| Estimated routing mass loss | "@,
        "| Mass-loss threshold | "@ + threshold + " ("@,
    );
    lemma_row_bracket();
    lemma_row_estimated_routing_mass_loss();
    text::rows_are_there(
        p2,
        " ("@,
        threshold_pct,
        "%) |\n| Estimated routing mass loss | "@,
        " ("@,
        "%) |"@,
    );
    let p3 = s2 + threshold_pct;
    let s4 = s3 + loss + " ("@;
    text::rows_stay(s3, loss, " ("@, "| Quality budget | "@ + budget + " |"@);
    text::rows_stay(s3, loss, " ("@, "| Mass-loss threshold | "@ + threshold + " ("@);
    text::rows_stay(s3, loss, " ("@, " ("@ + threshold_pct + "%) |"@);
    lemma_row_estimated_routing_mass_loss();
    lemma_row_bracket();
    text::rows_are_there(
        p3,
        "%) |\n| Estimated routing mass loss | "@,
        loss,
        " ("@,
        "| Estimated routing mass loss | "@,
        " ("@,
    );
    let p4 = s3 + loss;
    let s5 = s4 + loss_pct + "%) |\n| Within budget | "@;
    text::rows_stay(
        s4,
        loss_pct,
        "%) |\n| Within budget | "@,
        "| Quality budget | "@ + budget + " |"@,
    );
    text::rows_stay(
        s4,
        loss_pct,
        "%) |\n| Within budget | "@,
        "| Mass-loss threshold | "@ + threshold + " ("@,
    );
    text::rows_stay(s4, loss_pct, "%) |\n| Within budget | "@, " ("@ + threshold_pct + "%) |"@);
    text::rows_stay(
        s4,
        loss_pct,
        "%) |\n| Within budget | "@,
        "| Estimated routing mass loss | "@ + loss + " ("@,
    );
    lemma_row_bracket();
    lemma_row_within_budget();
    text::rows_are_there(p4, " ("@, loss_pct, "%) |\n| Within budget | "@, " ("@, "%) |"@);
    let p5 = s4 + loss_pct;
    let s6 = s5 + layout_pass::bool_text(safe) + " |\n\n---\n\n"@;
    text::rows_stay(
        s5,
        layout_pass::bool_text(safe),
        " |\n\n---\n\n"@,
        "| Quality budget | "@ + budget + " |"@,
    );
    text::rows_stay(
        s5,
        layout_pass::bool_text(safe),
        " |\n\n---\n\n"@,
        "| Mass-loss threshold | "@ + threshold + " ("@,
    );
    text::rows_stay(
        s5,
        layout_pass::bool_text(safe),
        " |\n\n---\n\n"@,
        " ("@ + threshold_pct + "%) |"@,
    );
    text::rows_stay(
        s5,
        layout_pass::bool_text(safe),
        " |\n\n---\n\n"@,
        "| Estimated routing mass loss | "@ + loss + " ("@,
    );
    text::rows_stay(s5, layout_pass::bool_text(safe), " |\n\n---\n\n"@, " ("@ + loss_pct + "%) |"@);
    lemma_row_within_budget();
    lemma_row_section_end();
    text::rows_are_there(
        p5,
        "%) |\n| Within budget | "@,
        layout_pass::bool_text(safe),
        " |\n\n---\n\n"@,
        "| Within budget | "@,
        " |"@,
    );
    let p6 = s5 + layout_pass::bool_text(safe);
    assert(s6 == pack_pass::budget_text(budget, threshold, threshold_pct, loss, loss_pct, safe));
}

/// The report tells how many experts are resident from the start, and their size.
pub proof fn residents_are_reported(hot: usize, hot_mb: Seq<char>, evictions: usize)
    ensures
        text::contains_text(
            pack_pass::residency_text(hot, hot_mb, evictions),
            "| Initial hot experts | "@ + text::decimal(hot as nat) + " |"@,
        ),
        text::contains_text(
            pack_pass::residency_text(hot, hot_mb, evictions),
            "| Initial hot bytes | "@ + hot_mb + " MB |"@,
        ),
        text::contains_text(
            pack_pass::residency_text(hot, hot_mb, evictions),
            "| Eviction entries | "@ + text::decimal(evictions as nat) + " |"@,
        ),
{
    let none = Seq::<char>::empty();
    let s0 = "\n\n---\n\n## Residency Plan\n\n| Metric | Value |\n|--------|-------|\n| Initial hot experts | "@;
    assert(none + s0 == s0);
    let s1 = s0 + text::decimal(hot as nat) + " |\n| Initial hot bytes | "@;
    lemma_row_initial_hot_experts();
    lemma_row_initial_hot_bytes();
    text::rows_are_there(
        none,
        "\n\n---\n\n## Residency Plan\n\n| Metric | Value |\n|--------|-------|\n| Initial hot experts | "@,
        text::decimal(hot as nat),
        " |\n| Initial hot bytes | "@,
        "| Initial hot experts | "@,
        " |"@,
    );
    let p1 = s0 + text::decimal(hot as nat);
    let s2 = s1 + hot_mb + " MB |\n| Eviction entries | "@;
    text::rows_stay(
        s1,
        hot_mb,
        " MB |\n| Eviction entries | "@,
        "| Initial hot experts | "@ + text::decimal(hot as nat) + " |"@,
    );
    lemma_row_initial_hot_bytes();
    lemma_row_eviction_entries();
    text::rows_are_there(
        p1,
        " |\n| Initial hot bytes | "@,
        hot_mb,
        " MB |\n| Eviction entries | "@,
        "| Initial hot bytes | "@,
        " MB |"@,
    );
    let p2 = s1 + hot_mb;
    let s3 = s2 + text::decimal(evictions as nat) + " |\n\n---\n\n"@;
    text::rows_stay(
        s2,
        text::decimal(evictions as nat),
        " |\n\n---\n\n"@,
        "| Initial hot experts | "@ + text::decimal(hot as nat) + " |"@,
    );
    text::rows_stay(
        s2,
        text::decimal(evictions as nat),
        " |\n\n---\n\n"@,
        "| Initial hot bytes | "@ + hot_mb + " MB |"@,
    );
    lemma_row_eviction_entries();
    lemma_row_section_end();
    text::rows_are_there(
        p2,
        " MB |\n| Eviction entries | "@,
        text::decimal(evictions as nat),
        " |\n\n---\n\n"@,
        "| Eviction entries | "@,
        " |"@,
    );
    let p3 = s2 + text::decimal(evictions as nat);
    assert(s3 == pack_pass::residency_text(hot, hot_mb, evictions));
}

/// The report tells how the pack is run.
pub proof fn profiles_are_reported(p: RuntimeProfile, top_p: Seq<char>)
    ensures
        text::contains_text(
            pack_pass::profile_text(p, top_p),
            "| Profile | `"@ + p.profile_name@ + "` |"@,
        ),
        text::contains_text(
            pack_pass::profile_text(p, top_p),
            "| Backend | `"@ + p.backend@ + "` |"@,
        ),
        text::contains_text(
            pack_pass::profile_text(p, top_p),
            "| Policy | "@ + p.policy_kind@ + " |"@,
        ),
        text::contains_text(pack_pass::profile_text(p, top_p), "| top_p | "@ + top_p + " |"@),
        text::contains_text(
            pack_pass::profile_text(p, top_p),
            "| min experts | "@ + text::decimal(p.moe_min_experts as nat) + " |"@,
        ),
        text::contains_text(
            pack_pass::profile_text(p, top_p),
            "| max experts | "@ + text::decimal(p.moe_max_experts as nat) + " |"@,
        ),
{
    let none = Seq::<char>::empty();
    let s0 = "## Runtime Profile\n\n| Field | Value |\n|-------|-------|\n| Profile | `"@;
    assert(none + s0 == s0);
    let s1 = s0 + p.profile_name@ + "` |\n| Backend | `"@;
    lemma_row_profile();
    lemma_row_backend();
    text::rows_are_there(
        none,
        "## Runtime Profile\n\n| Field | Value |\n|-------|-------|\n| Profile | `"@,
        p.profile_name@,
        "` |\n| Backend | `"@,
        "| Profile | `"@,
        "` |"@,
    );
    let p1 = s0 + p.profile_name@;
    let s2 = s1 + p.backend@ + "` |\n| Policy | "@;
    text::rows_stay(
        s1,
        p.backend@,
        "` |\n| Policy | "@,
        "| Profile | `"@ + p.profile_name@ + "` |"@,
    );
    lemma_row_backend();
    lemma_row_policy();
    text::rows_are_there(
        p1,
        "` |\n| Backend | `"@,
        p.backend@,
        "` |\n| Policy | "@,
        "| Backend | `"@,
        "` |"@,
    );
    let p2 = s1 + p.backend@;
    let s3 = s2 + p.policy_kind@ + " |\n| top_p | "@;
    text::rows_stay(
        s2,
        p.policy_kind@,
        " |\n| top_p | "@,
        "| Profile | `"@ + p.profile_name@ + "` |"@,
    );
    text::rows_stay(s2, p.policy_kind@, " |\n| top_p | "@, "| Backend | `"@ + p.backend@ + "` |"@);
    lemma_row_policy();
    lemma_row_top_p();
    text::rows_are_there(
        p2,
        "` |\n| Policy | "@,
        p.policy_kind@,
        " |\n| top_p | "@,
        "| Policy | "@,
        " |"@,
    );
    let p3 = s2 + p.policy_kind@;
    let s4 = s3 + top_p + " |\n| min experts | "@;
    text::rows_stay(
        s3,
        top_p,
        " |\n| min experts | "@,
        "| Profile | `"@ + p.profile_name@ + "` |"@,
    );
    text::rows_stay(s3, top_p, " |\n| min experts | "@, "| Backend | `"@ + p.backend@ + "` |"@);
    text::rows_stay(s3, top_p, " |\n| min experts | "@, "| Policy | "@ + p.policy_kind@ + " |"@);
    lemma_row_top_p();
    lemma_row_min_experts();
    text::rows_are_there(
        p3,
        " |\n| top_p | "@,
        top_p,
        " |\n| min experts | "@,
        "| top_p | "@,
        " |"@,
    );
    let p4 = s3 + top_p;
    let s5 = s4 + text::decimal(p.moe_min_experts as nat) + " |\n| max experts | "@;
    text::rows_stay(
        s4,
        text::decimal(p.moe_min_experts as nat),
        " |\n| max experts | "@,
        "| Profile | `"@ + p.profile_name@ + "` |"@,
    );
    text::rows_stay(
        s4,
        text::decimal(p.moe_min_experts as nat),
        " |\n| max experts | "@,
        "| Backend | `"@ + p.backend@ + "` |"@,
    );
    text::rows_stay(
        s4,
        text::decimal(p.moe_min_experts as nat),
        " |\n| max experts | "@,
        "| Policy | "@ + p.policy_kind@ + " |"@,
    );
    text::rows_stay(
        s4,
        text::decimal(p.moe_min_experts as nat),
        " |\n| max experts | "@,
        "| top_p | "@ + top_p + " |"@,
    );
    lemma_row_min_experts();
    lemma_row_max_experts();
    text::rows_are_there(
        p4,
        " |\n| min experts | "@,
        text::decimal(p.moe_min_experts as nat),
        " |\n| max experts | "@,
        "| min experts | "@,
        " |"@,
    );
    let p5 = s4 + text::decimal(p.moe_min_experts as nat);
    let s6 = s5 + text::decimal(p.moe_max_experts as nat) + " |\n\n---\n\n"@;
    text::rows_stay(
        s5,
        text::decimal(p.moe_max_experts as nat),
        " |\n\n---\n\n"@,
        "| Profile | `"@ + p.profile_name@ + "` |"@,
    );
    text::rows_stay(
        s5,
        text::decimal(p.moe_max_experts as nat),
        " |\n\n---\n\n"@,
        "| Backend | `"@ + p.backend@ + "` |"@,
    );
    text::rows_stay(
        s5,
        text::decimal(p.moe_max_experts as nat),
        " |\n\n---\n\n"@,
        "| Policy | "@ + p.policy_kind@ + " |"@,
    );
    text::rows_stay(
        s5,
        text::decimal(p.moe_max_experts as nat),
        " |\n\n---\n\n"@,
        "| top_p | "@ + top_p + " |"@,
    );
    text::rows_stay(
        s5,
        text::decimal(p.moe_max_experts as nat),
        " |\n\n---\n\n"@,
        "| min experts | "@ + text::decimal(p.moe_min_experts as nat) + " |"@,
    );
    lemma_row_max_experts();
    lemma_row_section_end();
    text::rows_are_there(
        p5,
        " |\n| max experts | "@,
        text::decimal(p.moe_max_experts as nat),
        " |\n\n---\n\n"@,
        "| max experts | "@,
        " |"@,
    );
    let p6 = s5 + text::decimal(p.moe_max_experts as nat);
    assert(s6 == pack_pass::profile_text(p, top_p));
}

/// The report tells when it was made, where the phases come from and the arguments.
pub proof fn origins_are_reported(created_at: Seq<char>, provenance: Seq<char>, args: Seq<char>)
    ensures
        text::contains_text(
            pack_pass::head_text(created_at, provenance, args),
            "Generated by objeta-aot specialize v0.1 at "@ + created_at + ""@,
        ),
        text::contains_text(
            pack_pass::head_text(created_at, provenance, args),
            "> **Note**: Phase classification uses heuristic rules ("@ + provenance + ")."@,
        ),
        text::contains_text(pack_pass::head_text(created_at, provenance, args), ""@ + args + ""@),
{
    let none = Seq::<char>::empty();
    let s0 = "# Objeta Specialization Report\n\nGenerated by objeta-aot specialize v0.1 at "@;
    assert(none + s0 == s0);
    let s1 = s0 + created_at + "\n\n> **Note**: Phase classification uses heuristic rules ("@;
    lemma_row_generated_by_objeta_aot();
    lemma_row_note_phase_classification_uses();
    text::rows_are_there(
        none,
        "# Objeta Specialization Report\n\nGenerated by objeta-aot specialize v0.1 at "@,
        created_at,
        "\n\n> **Note**: Phase classification uses heuristic rules ("@,
        "Generated by objeta-aot specialize v0.1 at "@,
        ""@,
    );
    let p1 = s0 + created_at;
    let s2 = s1 + provenance
        + ").\n> Mass-loss figures are routing-trace estimates only — not end-to-end quality measurements.\n> Verification is required before applying this plan to a production pack.\n\n## Arguments\n\n"@;
    text::rows_stay(
        s1,
        provenance,
        ").\n> Mass-loss figures are routing-trace estimates only — not end-to-end quality measurements.\n> Verification is required before applying this plan to a production pack.\n\n## Arguments\n\n"@,
        "Generated by objeta-aot specialize v0.1 at "@ + created_at + ""@,
    );
    lemma_row_note_phase_classification_uses();
    lemma_row_note_end();
    text::rows_are_there(
        p1,
        "\n\n> **Note**: Phase classification uses heuristic rules ("@,
        provenance,
        ").\n> Mass-loss figures are routing-trace estimates only — not end-to-end quality measurements.\n> Verification is required before applying this plan to a production pack.\n\n## Arguments\n\n"@,
        "> **Note**: Phase classification uses heuristic rules ("@,
        ")."@,
    );
    let p2 = s1 + provenance;
    let s3 = s2 + args + "\n\n---\n\n"@;
    text::rows_stay(
        s2,
        args,
        "\n\n---\n\n"@,
        "Generated by objeta-aot specialize v0.1 at "@ + created_at + ""@,
    );
    text::rows_stay(
        s2,
        args,
        "\n\n---\n\n"@,
        "> **Note**: Phase classification uses heuristic rules ("@ + provenance + ")."@,
    );
    lemma_row_note_end();
    lemma_row_rule();
    text::rows_are_there(
        p2,
        ").\n> Mass-loss figures are routing-trace estimates only — not end-to-end quality measurements.\n> Verification is required before applying this plan to a production pack.\n\n## Arguments\n\n"@,
        args,
        "\n\n---\n\n"@,
        ""@,
        ""@,
    );
    let p3 = s2 + args;
    assert(s3 == pack_pass::head_text(created_at, provenance, args));
}

/// The report counts pairs and checks, and lists checks and files.
pub proof fn checks_and_files_are_reported(
    pairs: usize,
    checks: usize,
    check_list: Seq<char>,
    file_list: Seq<char>,
)
    ensures
        text::contains_text(
            pack_pass::tail_text(pairs, checks, check_list, file_list),
            ""@ + text::decimal(pairs as nat) + " layer-local co-occurrence pairs recorded."@,
        ),
        text::contains_text(
            pack_pass::tail_text(pairs, checks, check_list, file_list),
            ""@ + text::decimal(checks as nat) + " checks scheduled:"@,
        ),
        text::contains_text(
            pack_pass::tail_text(pairs, checks, check_list, file_list),
            ""@ + check_list + ""@,
        ),
        text::contains_text(
            pack_pass::tail_text(pairs, checks, check_list, file_list),
            ""@ + file_list + ""@,
        ),
{
    let none = Seq::<char>::empty();
    let s0 = "## Co-residency\n\n"@;
    assert(none + s0 == s0);
    let s1 = s0 + text::decimal(pairs as nat)
        + " layer-local co-occurrence pairs recorded.\n\n---\n\n## Verification Plan\n\n"@;
    lemma_row_co_residency();
    lemma_row_layer_local_co_occurrence();
    text::rows_are_there(
        none,
        "## Co-residency\n\n"@,
        text::decimal(pairs as nat),
        " layer-local co-occurrence pairs recorded.\n\n---\n\n## Verification Plan\n\n"@,
        ""@,
        " layer-local co-occurrence pairs recorded."@,
    );
    let p1 = s0 + text::decimal(pairs as nat);
    let s2 = s1 + text::decimal(checks as nat) + " checks scheduled:\n\n"@;
    text::rows_stay(
        s1,
        text::decimal(checks as nat),
        " checks scheduled:\n\n"@,
        ""@ + text::decimal(pairs as nat) + " layer-local co-occurrence pairs recorded."@,
    );
    lemma_row_layer_local_co_occurrence();
    lemma_row_checks_scheduled();
    text::rows_are_there(
        p1,
        " layer-local co-occurrence pairs recorded.\n\n---\n\n## Verification Plan\n\n"@,
        text::decimal(checks as nat),
        " checks scheduled:\n\n"@,
        ""@,
        " checks scheduled:"@,
    );
    let p2 = s1 + text::decimal(checks as nat);
    let s3 = s2 + check_list + "\n\n---\n\n## Output Files\n\n"@;
    text::rows_stay(
        s2,
        check_list,
        "\n\n---\n\n## Output Files\n\n"@,
        ""@ + text::decimal(pairs as nat) + " layer-local co-occurrence pairs recorded."@,
    );
    text::rows_stay(
        s2,
        check_list,
        "\n\n---\n\n## Output Files\n\n"@,
        ""@ + text::decimal(checks as nat) + " checks scheduled:"@,
    );
    lemma_row_checks_scheduled();
    lemma_row_output_files();
    text::rows_are_there(
        p2,
        " checks scheduled:\n\n"@,
        check_list,
        "\n\n---\n\n## Output Files\n\n"@,
        ""@,
        ""@,
    );
    let p3 = s2 + check_list;
    let s4 = s3 + file_list + "\n"@;
    text::rows_stay(
        s3,
        file_list,
        "\n"@,
        ""@ + text::decimal(pairs as nat) + " layer-local co-occurrence pairs recorded."@,
    );
    text::rows_stay(
        s3,
        file_list,
        "\n"@,
        ""@ + text::decimal(checks as nat) + " checks scheduled:"@,
    );
    text::rows_stay(s3, file_list, "\n"@, ""@ + check_list + ""@);
    lemma_row_output_files();
    lemma_row_last();
    text::rows_are_there(p3, "\n\n---\n\n## Output Files\n\n"@, file_list, "\n"@, ""@, ""@);
    let p4 = s3 + file_list;
    assert(s4 == pack_pass::tail_text(pairs, checks, check_list, file_list));
}

/// The report lists each argument behind its own name.
pub proof fn arguments_are_reported(args: SpecializeArgs, capacity: u64)
    ensures
        text::contains_text(
            specialize::args_text(args, capacity),
            "- model: `"@ + args.model@ + "`"@,
        ),
        text::contains_text(
            specialize::args_text(args, capacity),
            "- calib: `"@ + args.calib@ + "`"@,
        ),
        text::contains_text(
            specialize::args_text(args, capacity),
            "- target: `"@ + args.target@ + "`"@,
        ),
        text::contains_text(
            specialize::args_text(args, capacity),
            "- task-profile: `"@ + args.task_profile@ + "`"@,
        ),
        text::contains_text(
            specialize::args_text(args, capacity),
            "- quality-budget: `"@ + args.quality_budget.spec_name() + "`"@,
        ),
        text::contains_text(
            specialize::args_text(args, capacity),
            "- memory-budget: "@ + text::decimal( capacity as nat, ) + " bytes"@,
        ),
        text::contains_text(specialize::args_text(args, capacity), "- out: `"@ + args.out@ + "`"@),
{
    let none = Seq::<char>::empty();
    let s0 = "- model: `"@;
    assert(none + s0 == s0);
    let s1 = s0 + args.model@ + "`\n- calib: `"@;
    lemma_row_model_argument();
    lemma_row_calib();
    text::rows_are_there(none, "- model: `"@, args.model@, "`\n- calib: `"@, "- model: `"@, "`"@);
    let p1 = s0 + args.model@;
    let s2 = s1 + args.calib@ + "`\n- target: `"@;
    text::rows_stay(s1, args.calib@, "`\n- target: `"@, "- model: `"@ + args.model@ + "`"@);
    lemma_row_calib();
    lemma_row_target_argument();
    text::rows_are_there(p1, "`\n- calib: `"@, args.calib@, "`\n- target: `"@, "- calib: `"@, "`"@);
    let p2 = s1 + args.calib@;
    let s3 = s2 + args.target@ + "`\n- task-profile: `"@;
    text::rows_stay(s2, args.target@, "`\n- task-profile: `"@, "- model: `"@ + args.model@ + "`"@);
    text::rows_stay(s2, args.target@, "`\n- task-profile: `"@, "- calib: `"@ + args.calib@ + "`"@);
    lemma_row_target_argument();
    lemma_row_task_profile();
    text::rows_are_there(
        p2,
        "`\n- target: `"@,
        args.target@,
        "`\n- task-profile: `"@,
        "- target: `"@,
        "`"@,
    );
    let p3 = s2 + args.target@;
    let s4 = s3 + args.task_profile@ + "`\n- quality-budget: `"@;
    text::rows_stay(
        s3,
        args.task_profile@,
        "`\n- quality-budget: `"@,
        "- model: `"@ + args.model@ + "`"@,
    );
    text::rows_stay(
        s3,
        args.task_profile@,
        "`\n- quality-budget: `"@,
        "- calib: `"@ + args.calib@ + "`"@,
    );
    text::rows_stay(
        s3,
        args.task_profile@,
        "`\n- quality-budget: `"@,
        "- target: `"@ + args.target@ + "`"@,
    );
    lemma_row_task_profile();
    lemma_row_budget_argument();
    text::rows_are_there(
        p3,
        "`\n- task-profile: `"@,
        args.task_profile@,
        "`\n- quality-budget: `"@,
        "- task-profile: `"@,
        "`"@,
    );
    let p4 = s3 + args.task_profile@;
    let s5 = s4 + args.quality_budget.spec_name() + "`\n- memory-budget: "@;
    text::rows_stay(
        s4,
        args.quality_budget.spec_name(),
        "`\n- memory-budget: "@,
        "- model: `"@ + args.model@ + "`"@,
    );
    text::rows_stay(
        s4,
        args.quality_budget.spec_name(),
        "`\n- memory-budget: "@,
        "- calib: `"@ + args.calib@ + "`"@,
    );
    text::rows_stay(
        s4,
        args.quality_budget.spec_name(),
        "`\n- memory-budget: "@,
        "- target: `"@ + args.target@ + "`"@,
    );
    text::rows_stay(
        s4,
        args.quality_budget.spec_name(),
        "`\n- memory-budget: "@,
        "- task-profile: `"@ + args.task_profile@ + "`"@,
    );
    lemma_row_budget_argument();
    lemma_row_memory_budget();
    text::rows_are_there(
        p4,
        "`\n- quality-budget: `"@,
        args.quality_budget.spec_name(),
        "`\n- memory-budget: "@,
        "- quality-budget: `"@,
        "`"@,
    );
    let p5 = s4 + args.quality_budget.spec_name();
    let s6 = s5 + text::decimal( capacity as nat, ) + " bytes\n- out: `"@;
    text::rows_stay(
        s5,
        text::decimal( capacity as nat, ),
        " bytes\n- out: `"@,
        "- model: `"@ + args.model@ + "`"@,
    );
    text::rows_stay(
        s5,
        text::decimal( capacity as nat, ),
        " bytes\n- out: `"@,
        "- calib: `"@ + args.calib@ + "`"@,
    );
    text::rows_stay(
        s5,
        text::decimal( capacity as nat, ),
        " bytes\n- out: `"@,
        "- target: `"@ + args.target@ + "`"@,
    );
    text::rows_stay(
        s5,
        text::decimal( capacity as nat, ),
        " bytes\n- out: `"@,
        "- task-profile: `"@ + args.task_profile@ + "`"@,
    );
    text::rows_stay(
        s5,
        text::decimal( capacity as nat, ),
        " bytes\n- out: `"@,
        "- quality-budget: `"@ + args.quality_budget.spec_name() + "`"@,
    );
    lemma_row_memory_budget();
    lemma_row_out();
    text::rows_are_there(
        p5,
        "`\n- memory-budget: "@,
        text::decimal( capacity as nat, ),
        " bytes\n- out: `"@,
        "- memory-budget: "@,
        " bytes"@,
    );
    let p6 = s5 + text::decimal( capacity as nat, );
    let s7 = s6 + args.out@ + "`"@;
    text::rows_stay(s6, args.out@, "`"@, "- model: `"@ + args.model@ + "`"@);
    text::rows_stay(s6, args.out@, "`"@, "- calib: `"@ + args.calib@ + "`"@);
    text::rows_stay(s6, args.out@, "`"@, "- target: `"@ + args.target@ + "`"@);
    text::rows_stay(s6, args.out@, "`"@, "- task-profile: `"@ + args.task_profile@ + "`"@);
    text::rows_stay(
        s6,
        args.out@,
        "`"@,
        "- quality-budget: `"@ + args.quality_budget.spec_name() + "`"@,
    );
    text::rows_stay(
        s6,
        args.out@,
        "`"@,
        "- memory-budget: "@ + text::decimal( capacity as nat, ) + " bytes"@,
    );
    lemma_row_out();
    lemma_row_quote();
    text::rows_are_there(p6, " bytes\n- out: `"@, args.out@, "`"@, "- out: `"@, "`"@);
    let p7 = s6 + args.out@;
    assert(s7 == specialize::args_text(args, capacity));
}

// ---------------------------------------------------------------------------
// The report
// ---------------------------------------------------------------------------

/// Every name of a bulleted list has a line.
pub proof fn names_are_listed(names: Seq<Seq<char>>, i: int)
    requires
        0 <= i < names.len(),
    ensures
        text::contains_text(pack_pass::bullets(names), "- `"@ + names[i] + "`"@),
    decreases names.len(),
{
    let none = Seq::<char>::empty();
    let line = "- `"@ + names.last() + "`"@;
    let row = "- `"@ + names[i] + "`"@;
    let front = names.drop_last();
    if names.len() == 1 {
        assert(pack_pass::bullets(names) == none + row + none);
        text::middles_are_contained(none, row, none);
    } else if i == names.len() - 1 {
        let head = pack_pass::bullets(front) + "\n"@;
        assert(pack_pass::bullets(names) == head + row + none);
        text::middles_are_contained(head, row, none);
    } else {
        names_are_listed(front, i);
        text::rows_stay(pack_pass::bullets(front), "\n"@, line, row);
    }
}

/// Whether the loss is within its limit is said with both numbers, and a coverage
/// that is too low is told.
pub proof fn limits_are_reported(n: ReportNumbers, safe: bool)
    ensures
        safe ==> text::contains_text(
            pack_pass::gates_text(n, safe),
            "within budget ("@ + n.mass_loss_short@ + " ≤ "@,
        ),
        !safe ==> text::contains_text(
            pack_pass::gates_text(n, safe),
            "EXCEEDED ("@ + n.mass_loss_short@ + " > "@,
        ),
        !ieee::at_most64(pruning_pass::LEAST_COVERAGE, n.coverage) ==> text::contains_text(
            pack_pass::gates_text(n, safe),
            "pruning disabled (coverage="@ + n.coverage_pct@ + "% < 80%)"@,
        ),
{
    let none = Seq::<char>::empty();
    let loss = pack_pass::loss_gate(n, safe);
    let low = "⚠️  Coverage gate: pruning disabled (coverage="@ + n.coverage_pct@ + "% < 80%)"@;
    lemma_limit_literals();
    let tail = n.mass_threshold@ + ")"@;
    if safe {
        let first = "✅ Mass-loss gate: within budget ("@;
        let row = "within budget ("@ + n.mass_loss_short@ + " ≤ "@;
        assert(none + first == first);
        text::rows_are_there(none, first, n.mass_loss_short@, " ≤ "@, "within budget ("@, " ≤ "@);
        text::rows_stay(first + n.mass_loss_short@ + " ≤ "@, n.mass_threshold@, ")"@, row);
        lemma_gates(n, safe, row);
    } else {
        let first = "⛔ Mass-loss gate: EXCEEDED ("@;
        let row = "EXCEEDED ("@ + n.mass_loss_short@ + " > "@;
        assert(none + first == first);
        text::rows_are_there(none, first, n.mass_loss_short@, " > "@, "EXCEEDED ("@, " > "@);
        text::rows_stay(first + n.mass_loss_short@ + " > "@, n.mass_threshold@, ")"@, row);
        lemma_gates(n, safe, row);
    }
    if !pack_pass::pruning_enabled(n) {
        let first = "⚠️  Coverage gate: pruning disabled (coverage="@;
        let row = "pruning disabled (coverage="@ + n.coverage_pct@ + "% < 80%)"@;
        assert(none + first == first);
        text::rows_are_there(
            none,
            first,
            n.coverage_pct@,
            "% < 80%)"@,
            "pruning disabled (coverage="@,
            "% < 80%)"@,
        );
        text::rows_stay(low, "\n"@, loss, row);
    }
}

/// What is said of the loss is said whatever the coverage.
proof fn lemma_gates(n: ReportNumbers, safe: bool, row: Seq<char>)
    requires
        text::contains_text(pack_pass::loss_gate(n, safe), row),
    ensures
        text::contains_text(pack_pass::gates_text(n, safe), row),
{
    let none = Seq::<char>::empty();
    let loss = pack_pass::loss_gate(n, safe);
    if !pack_pass::pruning_enabled(n) {
        let head = "⚠️  Coverage gate: pruning disabled (coverage="@ + n.coverage_pct@
            + "% < 80%)"@ + "\n"@;
        assert(pack_pass::gates_text(n, safe) == head + loss + none);
        text::middles_are_contained(head, loss, none);
        text::containment_carries(pack_pass::gates_text(n, safe), loss, row);
    }
}

proof fn lemma_limit_literals()
    ensures
        text::ends_with_text("✅ Mass-loss gate: within budget ("@, "within budget ("@),
        text::ends_with_text("⛔ Mass-loss gate: EXCEEDED ("@, "EXCEEDED ("@),
        text::ends_with_text(
            "⚠️  Coverage gate: pruning disabled (coverage="@,
            "pruning disabled (coverage="@,
        ),
        text::occurs_at(" ≤ "@, " ≤ "@, 0),
        text::occurs_at(" > "@, " > "@, 0),
        text::occurs_at("% < 80%)"@, "% < 80%)"@, 0),
{
    reveal_strlit("✅ Mass-loss gate: within budget (");
    reveal_strlit("within budget (");
    reveal_strlit("⛔ Mass-loss gate: EXCEEDED (");
    reveal_strlit("EXCEEDED (");
    reveal_strlit("⚠️  Coverage gate: pruning disabled (coverage=");
    reveal_strlit("pruning disabled (coverage=");
    let a = "✅ Mass-loss gate: within budget ("@;
    let b = "⛔ Mass-loss gate: EXCEEDED ("@;
    let c = "⚠️  Coverage gate: pruning disabled (coverage="@;
    assert(a.subrange(a.len() - "within budget ("@.len(), a.len() as int) == "within budget ("@);
    assert(b.subrange(b.len() - "EXCEEDED ("@.len(), b.len() as int) == "EXCEEDED ("@);
    assert(c.subrange(c.len() - "pruning disabled (coverage="@.len(), c.len() as int)
        == "pruning disabled (coverage="@);
    assert(" ≤ "@.subrange(0, " ≤ "@.len() as int) == " ≤ "@);
    assert(" > "@.subrange(0, " > "@.len() as int) == " > "@);
    assert("% < 80%)"@.subrange(0, "% < 80%)"@.len() as int) == "% < 80%)"@);
}

/// A report counts what the passes found: the experts of each tier, the layers of
/// each phase and the parts of each format, each behind its own name.
pub proof fn findings_are_reported(
    manifest: Manifest,
    layout: ExpertLayout,
    importance: ExpertImportance,
    policy: PhasePolicy,
    quant: QuantPlan,
    profile: RuntimeProfile,
    capacity: u64,
    args: Seq<char>,
    n: ReportNumbers,
)
    ensures
        ({
            let s = pack_pass::findings_text(
                manifest,
                layout,
                importance,
                policy,
                quant,
                profile,
                capacity,
                args,
                n,
            );
            let tier = |t: ExpertTier|
                text::decimal(specialize::tier_count(importance.experts@, t) as usize as nat);
            let phase = |p: Seq<char>|
                text::decimal(pack_pass::phase_count(policy.layers@, p) as usize as nat);
            let format = |f: Seq<char>|
                text::decimal(pack_pass::format_count(quant.entries@, f) as usize as nat);
            &&& text::contains_text(s, "| 🔥 Hot | "@ + tier(ExpertTier::Hot) + " |"@)
            &&& text::contains_text(s, "| 🌡️ Warm | "@ + tier(ExpertTier::Warm) + " |"@)
            &&& text::contains_text(s, "| 🧊 Cold | "@ + tier(ExpertTier::Cold) + " |"@)
            &&& text::contains_text(
                s,
                "| integrity_frontier | "@ + phase("integrity_frontier"@)
                    + " | Protected — early token formation |"@,
            )
            &&& text::contains_text(
                s,
                "| steering | "@ + phase("steering"@) + " | Protected — GQA semantic routing |"@,
            )
            &&& text::contains_text(
                s,
                "| transport | "@ + phase("transport"@) + " | Optimizable — bulk FFN transport |"@,
            )
            &&& text::contains_text(
                s,
                "| projection | "@ + phase("projection"@)
                    + " | Protected — late output projection |"@,
            )
            &&& text::contains_text(s, "| q8 | "@ + format("q8"@) + " | Routers (always) |"@)
            &&& text::contains_text(
                s,
                "| q5 | "@ + format("q5"@) + " | Protected layers, hot steering |"@,
            )
            &&& text::contains_text(
                s,
                "| q4 | "@ + format("q4"@) + " | Warm transport, hot transport |"@,
            )
            &&& text::contains_text(
                s,
                "| iq3 | "@ + format("iq3"@) + " | Cold transport candidates |"@,
            )
            &&& text::contains_text(
                s,
                "| iq2 | "@ + format("iq2"@) + " | Prune candidates only |"@,
            )
        }),
{
    let es = importance.experts@;
    let total = specialize::spec_possible_experts(layout) as u64;
    let (ls, qs) = (policy.layers@, quant.entries@);
    let whence = pack_pass::provenance_text(policy);
    let (f, g, t, p) = (
        pack_pass::phase_count(ls, "integrity_frontier"@) as usize,
        pack_pass::phase_count(ls, "steering"@) as usize,
        pack_pass::phase_count(ls, "transport"@) as usize,
        pack_pass::phase_count(ls, "projection"@) as usize,
    );
    let (hot, warm, cold) = (
        specialize::tier_count(es, ExpertTier::Hot) as usize,
        specialize::tier_count(es, ExpertTier::Warm) as usize,
        specialize::tier_count(es, ExpertTier::Cold) as usize,
    );
    let (q8, q5, q4, iq3, iq2) = (
        pack_pass::format_count(qs, "q8"@) as usize,
        pack_pass::format_count(qs, "q5"@) as usize,
        pack_pass::format_count(qs, "q4"@) as usize,
        pack_pass::format_count(qs, "iq3"@) as usize,
        pack_pass::format_count(qs, "iq2"@) as usize,
    );
    phases_are_reported(whence, f, g, t, p);
    tiers_are_reported(hot, warm, cold);
    formats_are_reported(q8, q5, q4, iq3, iq2);
    let before = pack_pass::head_text(manifest.created_at@, whence, args) + pack_pass::target_text(
        manifest.target@,
        profile.backend@,
        n.cache_gb@,
        capacity,
    ) + pack_pass::model_text(
        manifest.model_name@,
        layout.num_layers,
        total,
        layout.packed_expert_layers@.len() as usize,
        layout.shared_experts@.len() as usize,
        layout.routers@.len() as usize,
    ) + pack_pass::coverage_text(
        es.len() as usize,
        total,
        n.coverage_pct@,
        pack_pass::pruning_enabled(n),
    );
    let a = pack_pass::phase_text(whence, f, g, t, p);
    let b = pack_pass::tier_text(hot, warm, cold);
    let c = pack_pass::precision_text(q8, q5, q4, iq3, iq2);
    let s = before + a + b + c;
    lemma_sections_are_there(before, a, b, c);
    let d = |n: usize| text::decimal(n as nat);
    text::containment_carries(s, b, "| 🔥 Hot | "@ + d(hot) + " |"@);
    text::containment_carries(s, b, "| 🌡️ Warm | "@ + d(warm) + " |"@);
    text::containment_carries(s, b, "| 🧊 Cold | "@ + d(cold) + " |"@);
    text::containment_carries(
        s,
        a,
        "| integrity_frontier | "@ + d(f) + " | Protected — early token formation |"@,
    );
    text::containment_carries(
        s,
        a,
        "| steering | "@ + d(g) + " | Protected — GQA semantic routing |"@,
    );
    text::containment_carries(
        s,
        a,
        "| transport | "@ + d(t) + " | Optimizable — bulk FFN transport |"@,
    );
    text::containment_carries(
        s,
        a,
        "| projection | "@ + d(p) + " | Protected — late output projection |"@,
    );
    text::containment_carries(s, c, "| q8 | "@ + d(q8) + " | Routers (always) |"@);
    text::containment_carries(s, c, "| q5 | "@ + d(q5) + " | Protected layers, hot steering |"@);
    text::containment_carries(s, c, "| q4 | "@ + d(q4) + " | Warm transport, hot transport |"@);
    text::containment_carries(s, c, "| iq3 | "@ + d(iq3) + " | Cold transport candidates |"@);
    text::containment_carries(s, c, "| iq2 | "@ + d(iq2) + " | Prune candidates only |"@);
}

proof fn lemma_sections_are_there(before: Seq<char>, a: Seq<char>, b: Seq<char>, c: Seq<char>)
    ensures
        text::contains_text(before + a + b + c, a),
        text::contains_text(before + a + b + c, b),
        text::contains_text(before + a + b + c, c),
{
    let none = Seq::<char>::empty();
    let s = before + a + b + c;
    text::middles_are_contained(before, a, b + c);
    assert(before + a + (b + c) == s);
    text::middles_are_contained(before + a, b, c);
    text::middles_are_contained(before + a + b, c, none);
    assert(before + a + b + c + none == s);
}

/// A report tells what becomes of how many experts, whether the loss is kept within
/// its budget, and lists every check and every file.
pub proof fn plans_are_reported(
    manifest: Manifest,
    pruning: PruningPlan,
    residency: ResidencyPlanSummary,
    profile: RuntimeProfile,
    verification: VerificationPlan,
    pairs: usize,
    n: ReportNumbers,
)
    ensures
        ({
            let s = pack_pass::plans_text(
                manifest,
                pruning,
                residency,
                profile,
                verification,
                pairs,
                n,
            );
            let x = pruning.summary;
            let d = |n: usize| text::decimal(n as nat);
            &&& text::contains_text(
                s,
                "| protect | "@ + d(x.protect_count) + " | Safety-gated: never touched |"@,
            )
            &&& text::contains_text(
                s,
                "| keep | "@ + d(x.keep_count) + " | Retained at current precision |"@,
            )
            &&& text::contains_text(
                s,
                "| cold_tier | "@ + d(x.cold_tier_count) + " | Demoted tier, no weight change |"@,
            )
            &&& text::contains_text(
                s,
                "| compress | "@ + d(x.compress_count) + " | Quantized to iq3 |"@,
            )
            &&& text::contains_text(
                s,
                "| prune_candidate | "@ + d(x.prune_candidate_count)
                    + " | Quantized to iq2 (candidates) |"@,
            )
            &&& text::contains_text(
                s,
                "| Within budget | "@ + layout_pass::bool_text(x.safe) + " |"@,
            )
            &&& text::contains_text(s, "| Quality budget | "@ + x.quality_budget@ + " |"@)
            &&& text::contains_text(
                s,
                "| Initial hot experts | "@ + d(residency.initial_hot_expert_count) + " |"@,
            )
            &&& text::contains_text(s, pack_pass::gates_text(n, x.safe))
            &&& text::contains_text(
                s,
                pack_pass::bullets(verification.checks@.map_values(|c: VerificationCheck| c.kind@)),
            )
            &&& text::contains_text(s, pack_pass::bullets(text::views(manifest.files@)))
        }),
{
    let x = pruning.summary;
    let checks = pack_pass::bullets(
        verification.checks@.map_values(|c: VerificationCheck| c.kind@),
    );
    let files = pack_pass::bullets(text::views(manifest.files@));
    let count = verification.checks@.len() as usize;
    let a = pack_pass::actions_text(x);
    let b = pack_pass::budget_text(
        x.quality_budget@,
        n.mass_threshold@,
        n.mass_threshold_pct@,
        n.mass_loss@,
        n.mass_loss_pct@,
        x.safe,
    );
    let c = "## Safety Gates\n\n"@;
    let e = pack_pass::gates_text(n, x.safe);
    let r = pack_pass::residency_text(
        residency.initial_hot_expert_count,
        n.hot_mb@,
        residency.eviction_priority_count,
    );
    let p = pack_pass::profile_text(profile, n.top_p@);
    let t = pack_pass::tail_text(pairs, count, checks, files);
    let s = a + b + c + e + r + p + t;
    actions_are_reported(x);
    losses_are_reported(
        x.quality_budget@,
        n.mass_threshold@,
        n.mass_threshold_pct@,
        n.mass_loss@,
        n.mass_loss_pct@,
        x.safe,
    );
    residents_are_reported(
        residency.initial_hot_expert_count,
        n.hot_mb@,
        residency.eviction_priority_count,
    );
    lemma_parts_are_there(a, b, c, e, r, p, t);
    let d = |n: usize| text::decimal(n as nat);
    text::containment_carries(
        s,
        a,
        "| protect | "@ + d(x.protect_count) + " | Safety-gated: never touched |"@,
    );
    text::containment_carries(
        s,
        a,
        "| keep | "@ + d(x.keep_count) + " | Retained at current precision |"@,
    );
    text::containment_carries(
        s,
        a,
        "| cold_tier | "@ + d(x.cold_tier_count) + " | Demoted tier, no weight change |"@,
    );
    text::containment_carries(
        s,
        a,
        "| compress | "@ + d(x.compress_count) + " | Quantized to iq3 |"@,
    );
    text::containment_carries(
        s,
        a,
        "| prune_candidate | "@ + d(x.prune_candidate_count)
            + " | Quantized to iq2 (candidates) |"@,
    );
    text::containment_carries(s, b, "| Within budget | "@ + layout_pass::bool_text(x.safe) + " |"@);
    text::containment_carries(s, b, "| Quality budget | "@ + x.quality_budget@ + " |"@);
    text::containment_carries(
        s,
        r,
        "| Initial hot experts | "@ + d(residency.initial_hot_expert_count) + " |"@,
    );
    lemma_lists_are_there(pairs, count, checks, files);
    text::containment_carries(s, t, checks);
    text::containment_carries(s, t, files);
}

/// Texts that stand behind one another are parts of the whole.
proof fn lemma_parts_are_there(
    a: Seq<char>,
    b: Seq<char>,
    c: Seq<char>,
    e: Seq<char>,
    r: Seq<char>,
    p: Seq<char>,
    t: Seq<char>,
)
    ensures
        text::contains_text(a + b + c + e + r + p + t, a),
        text::contains_text(a + b + c + e + r + p + t, b),
        text::contains_text(a + b + c + e + r + p + t, e),
        text::contains_text(a + b + c + e + r + p + t, r),
        text::contains_text(a + b + c + e + r + p + t, t),
{
    let none = Seq::<char>::empty();
    let s = a + b + c + e + r + p + t;
    assert(s == none + a + (b + c + e + r + p + t));
    text::middles_are_contained(none, a, b + c + e + r + p + t);
    assert(s == a + b + (c + e + r + p + t));
    text::middles_are_contained(a, b, c + e + r + p + t);
    assert(s == a + b + c + e + (r + p + t));
    text::middles_are_contained(a + b + c, e, r + p + t);
    assert(s == a + b + c + e + r + (p + t));
    text::middles_are_contained(a + b + c + e, r, p + t);
    assert(s == a + b + c + e + r + p + t + none);
    text::middles_are_contained(a + b + c + e + r + p, t, none);
}

proof fn lemma_lists_are_there(
    pairs: usize,
    count: usize,
    checks: Seq<char>,
    files: Seq<char>,
)
    ensures
        text::contains_text(pack_pass::tail_text(pairs, count, checks, files), checks),
        text::contains_text(pack_pass::tail_text(pairs, count, checks, files), files),
{
    let s = pack_pass::tail_text(pairs, count, checks, files);
    let head = "## Co-residency\n\n"@ + text::decimal(pairs as nat)
        + " layer-local co-occurrence pairs recorded.\n\n---\n\n## Verification Plan\n\n"@
        + text::decimal(count as nat) + " checks scheduled:\n\n"@;
    let mid = "\n\n---\n\n## Output Files\n\n"@;
    assert(s == head + checks + (mid + files + "\n"@));
    text::middles_are_contained(head, checks, mid + files + "\n"@);
    text::middles_are_contained(head + checks + mid, files, "\n"@);
}

} // verus!
