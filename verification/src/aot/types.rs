//! The records that the passes exchange.
//!
//! A number that is a fraction is kept as the bit pattern of its
//! double-precision form.

use crate::ieee;
use crate::text;
use vstd::arithmetic::power2::*;
use vstd::prelude::*;

verus! {

// ---------------------------------------------------------------------------
// Layout
// ---------------------------------------------------------------------------

/// Which experts a model has, and where their tensors are.
#[derive(Debug, Clone)]
pub struct ExpertLayout {
    pub schema_version: u32,
    pub model: String,
    pub model_type: Option<String>,
    pub architectures: Vec<String>,
    pub num_layers: u32,
    pub num_experts: u32,
    pub vocab_size: Option<u32>,
    pub layout_kind: ExpertLayoutKind,
    pub logical_routed_expert_count: u64,
    pub experts: Vec<ExpertEntry>,
    pub packed_expert_layers: Vec<PackedExpertLayerEntry>,
    pub shared_experts: Vec<SharedExpertEntry>,
    pub routers: Vec<RouterEntry>,
    pub unknown_tensors: Vec<UnknownTensorEntry>,
    pub warnings: Vec<String>,
}

/// Whether the experts of a layer have tensors of their own or share one.
#[derive(Debug, Clone, Copy, PartialEq, Eq, Structural)]
pub enum ExpertLayoutKind {
    PerExpert,
    PackedExperts,
}

/// The tensors of one routed expert.
#[derive(Debug, Clone)]
pub struct ExpertEntry {
    pub layer: u32,
    pub expert: u32,
    pub gate: Option<TensorRef>,
    pub up: Option<TensorRef>,
    pub gate_up: Option<TensorRef>,
    pub down: Option<TensorRef>,
    pub source_files: Vec<String>,
    pub complete: bool,
}

/// The tensors that hold all experts of a layer.
#[derive(Debug, Clone)]
pub struct PackedExpertLayerEntry {
    pub layer: u32,
    pub num_experts_per_layer: u32,
    pub gate_up: Option<TensorRef>,
    pub down: Option<TensorRef>,
    pub source_files: Vec<String>,
    pub complete: bool,
}

/// The tensors of a layer's shared expert.
#[derive(Debug, Clone)]
pub struct SharedExpertEntry {
    pub layer: u32,
    pub gate: Option<TensorRef>,
    pub up: Option<TensorRef>,
    pub gate_up: Option<TensorRef>,
    pub down: Option<TensorRef>,
    pub shared_gate: Option<TensorRef>,
}

/// The router of a layer.
#[derive(Debug, Clone)]
pub struct RouterEntry {
    pub layer: u32,
    pub tensor: TensorRef,
}

/// A tensor that is none of the known ones.
#[derive(Debug, Clone)]
pub struct UnknownTensorEntry {
    pub tensor_name: String,
    pub source_file: String,
}

/// A tensor and where it is stored.
#[derive(Debug, Clone)]
pub struct TensorRef {
    pub tensor_kind: ExpertTensorKind,
    pub tensor_name: String,
    pub source_file: String,
    pub shape: Option<Vec<usize>>,
    pub dtype: Option<String>,
    pub byte_offset: Option<u64>,
    pub byte_len: Option<u64>,
}

/// What a tensor is to an expert.
#[derive(Debug, Clone, Copy, PartialEq, Eq, Structural)]
pub enum ExpertTensorKind {
    Gate,
    Up,
    GateUp,
    Down,
    PackedGateUp,
    PackedDown,
    Router,
    Shared,
    Unknown,
}

/// How often an expert is wanted.
#[derive(Debug, Clone, Copy, PartialEq, Eq, Structural)]
pub enum ExpertTier {
    Hot,
    Warm,
    Cold,
}

impl ExpertTier {
    /// The tier's name.
    pub open spec fn spec_name(self) -> Seq<char> {
        match self {
            ExpertTier::Hot => "hot"@,
            ExpertTier::Warm => "warm"@,
            ExpertTier::Cold => "cold"@,
        }
    }

    /// The tier's name.
    pub fn name(&self) -> (s: &'static str)
        ensures
            s@ == self.spec_name(),
    {
        match self {
            ExpertTier::Hot => "hot",
            ExpertTier::Warm => "warm",
            ExpertTier::Cold => "cold",
        }
    }
}

/// How much each expert matters.
#[derive(Debug, Clone)]
pub struct ExpertImportance {
    pub schema_version: u32,
    pub experts: Vec<ExpertImportanceEntry>,
}

/// How much an expert matters.
#[derive(Debug, Clone)]
pub struct ExpertImportanceEntry {
    pub layer: u32,
    pub expert: u32,
    pub selected_count: u64,
    pub frequency: u64,
    pub avg_gate_weight: u64,
    pub max_gate_weight: u64,
    pub importance: u64,
    pub tier: ExpertTier,
    pub recommended_format: String,
    pub eviction_priority: u64,
}

// ---------------------------------------------------------------------------
// Configuration and index
// ---------------------------------------------------------------------------

/// The sizes that a model's configuration gives. The language part of a larger
/// model has its own, under `text_config`.
#[derive(Debug)]
pub struct ModelConfig {
    pub model_type: Option<String>,
    pub architectures: Option<Vec<String>>,
    pub num_hidden_layers: Option<u32>,
    pub num_experts: Option<u32>,
    pub num_local_experts: Option<u32>,
    pub vocab_size: Option<u32>,
    pub hidden_size: Option<u32>,
    pub intermediate_size: Option<u32>,
    pub text_config: Option<Box<ModelConfig>>,
}

impl Default for ModelConfig {
    /// A configuration that gives nothing.
    fn default() -> (c: ModelConfig)
        ensures
            c == (ModelConfig {
                model_type: None,
                architectures: None,
                num_hidden_layers: None,
                num_experts: None,
                num_local_experts: None,
                vocab_size: None,
                hidden_size: None,
                intermediate_size: None,
                text_config: None,
            }),
    {
        ModelConfig {
            model_type: None,
            architectures: None,
            num_hidden_layers: None,
            num_experts: None,
            num_local_experts: None,
            vocab_size: None,
            hidden_size: None,
            intermediate_size: None,
            text_config: None,
        }
    }
}

/// The first of two values that is there.
pub open spec fn first_of(a: Option<u32>, b: Option<u32>) -> Option<u32> {
    if a is Some {
        a
    } else {
        b
    }
}

fn or_else(a: Option<u32>, b: Option<u32>) -> (r: Option<u32>)
    ensures
        r == first_of(a, b),
{
    match a {
        Some(_) => a,
        None => b,
    }
}

impl ModelConfig {
    /// How many experts this part of the configuration gives, by either name.
    pub open spec fn own_experts(self) -> Option<u32> {
        first_of(self.num_experts, self.num_local_experts)
    }

    /// The number of layers: the model's own, else that of its language part.
    pub open spec fn spec_num_hidden_layers(self) -> Option<u32> {
        first_of(
            self.num_hidden_layers,
            match self.text_config {
                Some(c) => c.num_hidden_layers,
                None => None,
            },
        )
    }

    /// The number of experts: the model's own, else that of its language part.
    pub open spec fn spec_num_experts(self) -> Option<u32> {
        first_of(
            self.own_experts(),
            match self.text_config {
                Some(c) => c.own_experts(),
                None => None,
            },
        )
    }

    /// The size of the vocabulary: the model's own, else that of its language
    /// part.
    pub open spec fn spec_vocab_size(self) -> Option<u32> {
        first_of(
            self.vocab_size,
            match self.text_config {
                Some(c) => c.vocab_size,
                None => None,
            },
        )
    }

    /// The hidden size: the model's own, else that of its language part.
    pub open spec fn spec_hidden_size(self) -> Option<u32> {
        first_of(
            self.hidden_size,
            match self.text_config {
                Some(c) => c.hidden_size,
                None => None,
            },
        )
    }

    /// The intermediate size: the model's own, else that of its language part.
    pub open spec fn spec_intermediate_size(self) -> Option<u32> {
        first_of(
            self.intermediate_size,
            match self.text_config {
                Some(c) => c.intermediate_size,
                None => None,
            },
        )
    }

    /// The number of layers.
    pub fn effective_num_hidden_layers(&self) -> (n: Option<u32>)
        ensures
            n == self.spec_num_hidden_layers(),
    {
        let nested: Option<u32> = match &self.text_config {
            Some(c) => c.num_hidden_layers,
            None => None,
        };
        or_else(self.num_hidden_layers, nested)
    }

    /// The number of experts.
    pub fn effective_num_experts(&self) -> (n: Option<u32>)
        ensures
            n == self.spec_num_experts(),
    {
        let nested: Option<u32> = match &self.text_config {
            Some(c) => or_else(c.num_experts, c.num_local_experts),
            None => None,
        };
        or_else(or_else(self.num_experts, self.num_local_experts), nested)
    }

    /// The size of the vocabulary.
    pub fn effective_vocab_size(&self) -> (n: Option<u32>)
        ensures
            n == self.spec_vocab_size(),
    {
        let nested: Option<u32> = match &self.text_config {
            Some(c) => c.vocab_size,
            None => None,
        };
        or_else(self.vocab_size, nested)
    }

    /// The hidden size.
    pub fn effective_hidden_size(&self) -> (n: Option<u32>)
        ensures
            n == self.spec_hidden_size(),
    {
        let nested: Option<u32> = match &self.text_config {
            Some(c) => c.hidden_size,
            None => None,
        };
        or_else(self.hidden_size, nested)
    }

    /// The intermediate size.
    pub fn effective_intermediate_size(&self) -> (n: Option<u32>)
        ensures
            n == self.spec_intermediate_size(),
    {
        let nested: Option<u32> = match &self.text_config {
            Some(c) => c.intermediate_size,
            None => None,
        };
        or_else(self.intermediate_size, nested)
    }
}

/// Which file each tensor of a model is in.
#[derive(Debug, Clone)]
pub struct SafeTensorsIndex {
    pub weight_map: Vec<(String, String)>,
    pub metadata: SafeTensorsIndexMetadata,
}

/// What an index says of the whole model.
#[derive(Debug, Clone)]
pub struct SafeTensorsIndexMetadata {
    pub total_size: Option<u64>,
}

/// What a tensor's name says.
#[derive(Debug, Clone)]
pub struct ParsedTensorName {
    pub layer_idx: Option<u32>,
    pub expert_id: Option<u32>,
    pub tensor_kind: ExpertTensorKind,
    pub is_shared: bool,
    pub is_packed_experts: bool,
    pub tensor_name: String,
    pub source_file: String,
}

/// An expert of a layer.
#[derive(Debug, Clone, Copy, PartialEq, Eq, Structural, PartialOrd, Ord, Hash)]
pub struct ExpertKey {
    pub layer: u32,
    pub expert: u32,
}

/// The files that describe a model.
#[derive(Debug, Clone)]
pub struct ResolvedModelFiles {
    pub index_path: String,
    pub config_path: String,
}

// ---------------------------------------------------------------------------
// Plans
// ---------------------------------------------------------------------------

/// How much routing mass may be lost for the sake of size.
#[derive(Debug, Clone, Copy, PartialEq, Eq, Structural)]
pub enum QualityBudget {
    Conservative,
    Balanced,
    Aggressive,
}

impl QualityBudget {
    /// The budget's name.
    pub open spec fn spec_name(self) -> Seq<char> {
        match self {
            QualityBudget::Conservative => "conservative"@,
            QualityBudget::Balanced => "balanced"@,
            QualityBudget::Aggressive => "aggressive"@,
        }
    }

    /// The budget's name.
    pub fn name(&self) -> (s: &'static str)
        ensures
            s@ == self.spec_name(),
    {
        match self {
            QualityBudget::Conservative => "conservative",
            QualityBudget::Balanced => "balanced",
            QualityBudget::Aggressive => "aggressive",
        }
    }

    /// The budget that a name stands for, in lower case.
    pub open spec fn named(s: Seq<char>) -> Option<QualityBudget> {
        if s == "conservative"@ {
            Some(QualityBudget::Conservative)
        } else if s == "balanced"@ {
            Some(QualityBudget::Balanced)
        } else if s == "aggressive"@ {
            Some(QualityBudget::Aggressive)
        } else {
            None
        }
    }

    /// The budget that a name stands for, whatever the case of its letters.
    pub fn from_str_loose(s: &str) -> (b: Option<QualityBudget>)
        ensures
            b == QualityBudget::named(text::ascii_lower(s@)),
    {
        let lower = text::lower_text(s);
        if text::text_eq(lower.as_str(), "conservative") {
            Some(QualityBudget::Conservative)
        } else if text::text_eq(lower.as_str(), "balanced") {
            Some(QualityBudget::Balanced)
        } else if text::text_eq(lower.as_str(), "aggressive") {
            Some(QualityBudget::Aggressive)
        } else {
            None
        }
    }

    /// The bit pattern of the share of routing mass that may be lost: a fiftieth, a
    /// twentieth or a tenth.
    pub open spec fn spec_mass_loss_threshold(self) -> u64 {
        match self {
            QualityBudget::Conservative => 0x3f94_7ae1_47ae_147b,
            QualityBudget::Balanced => 0x3fa9_9999_9999_999a,
            QualityBudget::Aggressive => 0x3fb9_9999_9999_999a,
        }
    }

    /// The bit pattern of the share of routing mass that may be lost.
    pub fn mass_loss_threshold(&self) -> (bits: u64)
        ensures
            bits == self.spec_mass_loss_threshold(),
    {
        match self {
            QualityBudget::Conservative => 0x3f94_7ae1_47ae_147b,
            QualityBudget::Balanced => 0x3fa9_9999_9999_999a,
            QualityBudget::Aggressive => 0x3fb9_9999_9999_999a,
        }
    }
}

/// Every budget is known by its name.
pub proof fn budgets_are_named(b: QualityBudget)
    ensures
        QualityBudget::named(b.spec_name()) == Some(b),
{
    reveal_strlit("conservative");
    reveal_strlit("balanced");
    reveal_strlit("aggressive");
    assert("conservative"@.len() == 12 && "balanced"@.len() == 8 && "aggressive"@.len() == 10);
}

/// A budget lets a fiftieth, a twentieth or a tenth of the routing mass go, and
/// the bolder one always lets more go.
pub proof fn budgets_are_shares()
    ensures
        ieee::nearest64(QualityBudget::Conservative.spec_mass_loss_threshold(), 1, 50),
        ieee::nearest64(QualityBudget::Balanced.spec_mass_loss_threshold(), 1, 20),
        ieee::nearest64(QualityBudget::Aggressive.spec_mass_loss_threshold(), 1, 10),
        ieee::less64(
            QualityBudget::Conservative.spec_mass_loss_threshold(),
            QualityBudget::Balanced.spec_mass_loss_threshold(),
        ),
        ieee::less64(
            QualityBudget::Balanced.spec_mass_loss_threshold(),
            QualityBudget::Aggressive.spec_mass_loss_threshold(),
        ),
{
    lemma2_to64_rest();
}

/// Only a budget's own name stands for it.
pub proof fn names_stand_for_budgets(s: Seq<char>)
    ensures
        QualityBudget::named(s) matches Some(b) ==> b.spec_name() == s,
{
}

/// Tiers have different names.
pub proof fn tiers_are_told_apart(a: ExpertTier, b: ExpertTier)
    requires
        a.spec_name() == b.spec_name(),
    ensures
        a == b,
{
    reveal_strlit("hot");
    reveal_strlit("warm");
    reveal_strlit("cold");
    assert("hot"@.len() == 3 && "warm"@[0] == 'w' && "cold"@[0] == 'c');
    assert("warm"@.len() == 4 && "cold"@.len() == 4);
}

/// What each layer is for, and how its experts may be thinned out.
#[derive(Debug, Clone)]
pub struct PhasePolicy {
    pub schema_version: u32,
    /// How the phases were assigned.
    pub source: String,
    /// How far the assignment can be trusted.
    pub confidence: String,
    pub layers: Vec<PhasePolicyLayer>,
}

/// The phase of a layer.
#[derive(Debug, Clone)]
pub struct PhasePolicyLayer {
    pub layer: u32,
    pub phase: String,
    pub recommended_policy: RecommendedPolicy,
}

/// How many experts a layer may use. The share of routing mass is the bit pattern
/// of a single-precision number.
#[derive(Debug, Clone)]
pub struct RecommendedPolicy {
    pub policy_kind: String,
    pub moe_top_p: u32,
    pub moe_min_experts: u32,
    pub moe_max_experts: u32,
}

/// What is to become of each expert.
#[derive(Debug, Clone)]
pub struct PruningPlan {
    pub schema_version: u32,
    pub summary: PruningPlanSummary,
    pub experts: Vec<PruningPlanEntry>,
}

/// The sums of a pruning plan.
#[derive(Debug, Clone)]
pub struct PruningPlanSummary {
    pub protect_count: usize,
    pub keep_count: usize,
    pub cold_tier_count: usize,
    pub compress_count: usize,
    pub prune_candidate_count: usize,
    pub estimated_routing_mass_loss: u64,
    pub quality_budget: String,
    pub mass_loss_threshold: u64,
    pub safe: bool,
    /// The loss is estimated from routing traces and was not measured.
    pub estimated_only: bool,
    /// The plan must be verified before it is applied.
    pub requires_verification: bool,
}

/// What is to become of an expert.
#[derive(Debug, Clone)]
pub struct PruningPlanEntry {
    pub layer: u32,
    pub expert: u32,
    pub action: String,
    pub target_format: Option<String>,
    pub estimated_mass_loss: u64,
    pub reason: String,
}

/// What has to be checked before a pack is used.
#[derive(Debug, Clone)]
pub struct VerificationPlan {
    pub schema_version: u32,
    pub checks: Vec<VerificationCheck>,
}

/// One check of a pack.
#[derive(Debug, Clone)]
pub struct VerificationCheck {
    pub kind: String,
    pub prompt: Option<String>,
    pub max_tokens: Option<u32>,
    pub required_cosine: Option<u64>,
    pub max_allowed: Option<u64>,
}

/// How a pack is to be run. The share of routing mass is the bit pattern of a
/// single-precision number.
#[derive(Debug, Clone)]
pub struct RuntimeProfile {
    pub schema_version: u32,
    pub profile_name: String,
    pub target: String,
    pub backend: String,
    pub policy_kind: String,
    pub moe_top_p: u32,
    pub moe_min_experts: u32,
    pub moe_max_experts: u32,
    pub resident_cache_capacity_bytes: u64,
    pub group_preresolve_top_n: u32,
    pub group_preresolve_max_bytes: u64,
    pub source_model: String,
    pub source_calibration: Option<String>,
}

/// How the files of a pack are written.
#[derive(Debug, Clone, Copy, PartialEq, Eq, Structural)]
pub enum OutputFormat {
    Json,
    Compact,
}

/// What a specialization was asked to do.
#[derive(Debug, Clone)]
pub struct SpecializeArgs {
    pub model: String,
    pub calib: String,
    pub target: String,
    pub task_profile: String,
    pub memory_budget: Option<u64>,
    pub quality_budget: QualityBudget,
    pub out: String,
}

/// In which format each part of the model is to be stored.
#[derive(Debug, Clone)]
pub struct QuantPlan {
    pub schema_version: u32,
    pub entries: Vec<QuantPlanEntry>,
}

/// The format of one part of the model.
#[derive(Debug, Clone)]
pub struct QuantPlanEntry {
    pub kind: String,
    pub layer: u32,
    pub expert: Option<u32>,
    pub tier: Option<String>,
    pub recommended_format: String,
    pub reason: String,
}

/// What is in a pack.
#[derive(Debug, Clone)]
pub struct Manifest {
    pub schema_version: u32,
    pub pack_type: String,
    pub model_family: String,
    pub model_name: String,
    pub target: String,
    pub created_at: String,
    pub files: Vec<String>,
    pub notes: String,
}

/// The sizes of a residency plan.
#[derive(Debug, Clone, Copy, PartialEq, Eq, Structural)]
pub struct ResidencyPlanSummary {
    pub initial_hot_expert_count: usize,
    pub initial_hot_expert_bytes: u64,
    pub eviction_priority_count: usize,
    pub bytes_fallback_expert_count: usize,
}

/// A configuration's own numbers go first, those of its language part stand in for
/// what it leaves out, and of the two names for the experts the plain one goes first.
pub proof fn configurations_fall_back(c: ModelConfig, part: ModelConfig)
    requires
        c.text_config matches Some(t) ==> *t == part,
    ensures
        c.num_hidden_layers is Some ==> c.spec_num_hidden_layers() == c.num_hidden_layers,
        c.vocab_size is Some ==> c.spec_vocab_size() == c.vocab_size,
        c.hidden_size is Some ==> c.spec_hidden_size() == c.hidden_size,
        c.intermediate_size is Some ==> c.spec_intermediate_size() == c.intermediate_size,
        c.num_experts is Some ==> c.spec_num_experts() == c.num_experts,
        c.num_experts is None && c.num_local_experts is Some ==> c.spec_num_experts()
            == c.num_local_experts,
        c.text_config is Some ==> {
            &&& c.num_hidden_layers is None ==> c.spec_num_hidden_layers()
                == part.num_hidden_layers
            &&& c.vocab_size is None ==> c.spec_vocab_size() == part.vocab_size
            &&& c.hidden_size is None ==> c.spec_hidden_size() == part.hidden_size
            &&& c.intermediate_size is None ==> c.spec_intermediate_size()
                == part.intermediate_size
            &&& c.num_experts is None && c.num_local_experts is None ==> {
                &&& part.num_experts is Some ==> c.spec_num_experts() == part.num_experts
                &&& part.num_experts is None ==> c.spec_num_experts() == part.num_local_experts
            }
        },
        c.text_config is None ==> {
            &&& c.num_hidden_layers is None ==> c.spec_num_hidden_layers() is None
            &&& c.vocab_size is None ==> c.spec_vocab_size() is None
            &&& c.hidden_size is None ==> c.spec_hidden_size() is None
            &&& c.intermediate_size is None ==> c.spec_intermediate_size() is None
            &&& c.num_experts is None && c.num_local_experts is None
                ==> c.spec_num_experts() is None
        },
{
}

} // verus!
