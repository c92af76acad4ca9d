//! The geometry of a model's layers: which zone a layer is in, where the steering
//! turns round, and what precision each zone needs. Fractions are held as the bit
//! patterns of double-precision numbers.

use crate::ieee;
use crate::text;
use vstd::arithmetic::power2::*;
use vstd::prelude::*;
use vstd::string::*;

verus! {

// ---------------------------------------------------------------------------
// Types
// ---------------------------------------------------------------------------

/// How the layers' directions relate over the whole model.
#[derive(Debug, Clone, Copy, PartialEq, Eq, Structural)]
pub enum Phase {
    Collapse1D,
    Split2D,
    MixedField,
}

/// How a model carries its state from layer to layer.
#[derive(Debug, Clone, Copy, PartialEq, Eq, Structural)]
pub enum Family {
    ResidualTransport,
    SphericalSteering,
}

/// The zone of a layer, from the input to the output.
#[derive(Debug, Clone, Copy, PartialEq, Eq, PartialOrd, Ord, Structural)]
pub enum LayerZone {
    Sync,
    Unfold,
    IsometricLocal,
    IsometricGlobal,
    Divergent,
}

/// How a layer is to be computed.
#[derive(Debug, Clone, Copy, PartialEq, Eq, Structural)]
pub enum ComputePolicy {
    AggressiveQuantize,
    StandardQuantize,
    ConservativeQuantize,
    FullPrecision,
    Skip,
}

/// What a model is most sensitive to.
#[derive(Debug, Clone, Copy, PartialEq, Eq, Structural)]
pub enum SensitivityDominance {
    AttentionBandwidth,
    FfnCoherence,
    SteeringBackbone,
}

/// What was measured of a layer.
#[derive(Debug, Clone, Copy)]
pub struct LayerProfile {
    pub layer_idx: usize,
    pub steering_cos: Option<u64>,
    pub intra_cos: Option<u64>,
    pub effective_rank: u64,
    pub residual_cos: Option<u64>,
    pub hidden_norm: Option<u64>,
    pub relative_steering: Option<u64>,
    pub position_gradient: Option<u64>,
    pub non_normality: Option<u64>,
    pub zone: Option<LayerZone>,
    pub lyapunov_estimate: Option<u64>,
}

/// What the layers of a zone need.
#[derive(Debug, Clone)]
pub struct ZonePolicy {
    pub zone: LayerZone,
    pub layers: Vec<usize>,
    pub min_precision_bits: u8,
    pub stability_critical: bool,
    pub force_full_attention: bool,
    pub refresh_interval: usize,
}

/// What a `ZonePolicy` stands for.
pub struct ZoneRule {
    pub zone: LayerZone,
    pub layers: Seq<usize>,
    pub min_precision_bits: u8,
    pub stability_critical: bool,
    pub force_full_attention: bool,
    pub refresh_interval: usize,
}

impl View for ZonePolicy {
    type V = ZoneRule;

    open spec fn view(&self) -> ZoneRule {
        ZoneRule {
            zone: self.zone,
            layers: self.layers@,
            min_precision_bits: self.min_precision_bits,
            stability_critical: self.stability_critical,
            force_full_attention: self.force_full_attention,
            refresh_interval: self.refresh_interval,
        }
    }
}

/// What went wrong while a model was read or analysed.
#[derive(Debug)]
pub enum ObjetaError {
    Io(String),
    Parse(String),
    Analysis(String),
    UnsupportedArchitecture(String),
    MissingTensor(String),
}

impl ObjetaError {
    /// The error as text.
    pub open spec fn message(&self) -> Seq<char> {
        match self {
            ObjetaError::Io(m) => "IO error: "@ + m@,
            ObjetaError::Parse(m) => "Parse error: "@ + m@,
            ObjetaError::Analysis(m) => "Analysis error: "@ + m@,
            ObjetaError::UnsupportedArchitecture(m) => "Unsupported model architecture: "@ + m@,
            ObjetaError::MissingTensor(m) => "Missing tensor: "@ + m@,
        }
    }

    /// The error as text.
    pub fn describe(&self) -> (s: String)
        ensures
            s@ == self.message(),
    {
        let (start, m) = match self {
            ObjetaError::Io(m) => ("IO error: ", m),
            ObjetaError::Parse(m) => ("Parse error: ", m),
            ObjetaError::Analysis(m) => ("Analysis error: ", m),
            ObjetaError::UnsupportedArchitecture(m) => ("Unsupported model architecture: ", m),
            ObjetaError::MissingTensor(m) => ("Missing tensor: ", m),
        };
        let mut s = start.to_owned();
        s.append(m.as_str());
        s
    }
}

// ---------------------------------------------------------------------------
// Thresholds
// ---------------------------------------------------------------------------

/// -0.01
pub const INVERTED_BELOW: u64 = 0xbf84_7ae1_47ae_147b;

/// 0.05
pub const REALIGNED_ABOVE: u64 = 0x3fa9_9999_9999_999a;

/// 0.95
pub const COLLAPSE_ABOVE: u64 = 0x3fee_6666_6666_6666;

/// 3
pub const COLLAPSE_RANK_BELOW: u64 = 0x4008_0000_0000_0000;

/// 0.3
pub const MIXED_ABOVE: u64 = 0x3fd3_3333_3333_3333;

/// 0.1
pub const STEERING_BELOW: u64 = 0x3fb9_9999_9999_999a;

/// 0.9
pub const COUPLED_ABOVE: u64 = 0x3fec_cccc_cccc_cccd;

// ---------------------------------------------------------------------------
// Zones
// ---------------------------------------------------------------------------

/// The first layer of the last zone: seven tenths of the layers, rounded up.
pub open spec fn diverge_start(n_layers: nat) -> nat {
    (7 * n_layers + 9) / 10
}

/// Steering turns back after this layer.
pub open spec fn is_inverted(steering_cos: Seq<u64>, l: int) -> bool {
    0 <= l < steering_cos.len() && ieee::less64(steering_cos[l], INVERTED_BELOW)
}

/// The zone of a layer.
pub open spec fn zone_of(l: nat, n_layers: nat, steering_cos: Seq<u64>) -> LayerZone {
    if l <= 1 {
        LayerZone::Sync
    } else if l == 2 {
        LayerZone::Unfold
    } else if l >= diverge_start(n_layers) {
        LayerZone::Divergent
    } else if is_inverted(steering_cos, l as int) {
        LayerZone::IsometricGlobal
    } else {
        LayerZone::IsometricLocal
    }
}

/// The zone of a layer.
pub fn classify_zone(l: usize, n_layers: usize, steering_cos: &[u64]) -> (zone: LayerZone)
    ensures
        zone == zone_of(l as nat, n_layers as nat, steering_cos@),
{
    let start: usize = n_layers - (n_layers / 10 * 3 + n_layers % 10 * 3 / 10);
    assert(start == diverge_start(n_layers as nat));
    if l <= 1 {
        LayerZone::Sync
    } else if l == 2 {
        LayerZone::Unfold
    } else if l >= start {
        LayerZone::Divergent
    } else if l < steering_cos.len() && ieee::is_less64(steering_cos[l], INVERTED_BELOW) {
        LayerZone::IsometricGlobal
    } else {
        LayerZone::IsometricLocal
    }
}

/// The letter that stands for a zone in a layer map.
pub open spec fn letter_of(zone: Option<LayerZone>) -> char {
    match zone {
        Some(LayerZone::Sync) => 'S',
        Some(LayerZone::Unfold) => 'U',
        Some(LayerZone::IsometricLocal) => 'I',
        Some(LayerZone::IsometricGlobal) => 'G',
        Some(LayerZone::Divergent) => 'D',
        None => '?',
    }
}

/// The letter that stands for a zone in a layer map.
pub fn zone_letter(zone: Option<LayerZone>) -> (c: char)
    ensures
        c == letter_of(zone),
{
    match zone {
        Some(LayerZone::Sync) => 'S',
        Some(LayerZone::Unfold) => 'U',
        Some(LayerZone::IsometricLocal) => 'I',
        Some(LayerZone::IsometricGlobal) => 'G',
        Some(LayerZone::Divergent) => 'D',
        None => '?',
    }
}

// ---------------------------------------------------------------------------
// Phase and family
// ---------------------------------------------------------------------------

/// The phase of a model: one direction where the layers are coupled and of low
/// rank, a mixed field where the coupling varies, and two directions otherwise.
pub open spec fn phase_of(mean_intra: u64, eff_rank: u64, intra_std: u64) -> Phase {
    if ieee::less64(COLLAPSE_ABOVE, mean_intra) && ieee::less64(eff_rank, COLLAPSE_RANK_BELOW) {
        Phase::Collapse1D
    } else if ieee::less64(MIXED_ABOVE, intra_std) {
        Phase::MixedField
    } else {
        Phase::Split2D
    }
}

/// The phase of a model, from the mean coupling, the mean effective rank and the
/// spread of the coupling.
pub fn classify_phase(mean_intra: u64, eff_rank: u64, intra_std: u64) -> (phase: Phase)
    ensures
        phase == phase_of(mean_intra, eff_rank, intra_std),
{
    if ieee::is_less64(COLLAPSE_ABOVE, mean_intra) && ieee::is_less64(
        eff_rank,
        COLLAPSE_RANK_BELOW,
    ) {
        Phase::Collapse1D
    } else if ieee::is_less64(MIXED_ABOVE, intra_std) {
        Phase::MixedField
    } else {
        Phase::Split2D
    }
}

/// A number without its sign.
pub open spec fn unsigned64(b: u64) -> u64 {
    if b >= 0x8000_0000_0000_0000 {
        (b - 0x8000_0000_0000_0000) as u64
    } else {
        b
    }
}

/// The family of a model: spherical where the layers steer at right angles and
/// are coupled within.
pub open spec fn family_of(mean_intra: u64, mean_cos: u64) -> Family {
    if ieee::less64(unsigned64(mean_cos), STEERING_BELOW) && ieee::less64(
        COUPLED_ABOVE,
        mean_intra,
    ) {
        Family::SphericalSteering
    } else {
        Family::ResidualTransport
    }
}

/// The family of a model, from the mean coupling and the mean steering cosine.
pub fn classify_family(mean_intra: u64, mean_cos: u64) -> (family: Family)
    ensures
        family == family_of(mean_intra, mean_cos),
{
    let size: u64 = if mean_cos >= 0x8000_0000_0000_0000 {
        mean_cos - 0x8000_0000_0000_0000
    } else {
        mean_cos
    };
    if ieee::is_less64(size, STEERING_BELOW) && ieee::is_less64(COUPLED_ABOVE, mean_intra) {
        Family::SphericalSteering
    } else {
        Family::ResidualTransport
    }
}

// ---------------------------------------------------------------------------
// Inversion
// ---------------------------------------------------------------------------

/// The inverted layers among the first `n`.
pub open spec fn inverted_before(steering_cos: Seq<u64>, n: int) -> Seq<usize>
    decreases n,
{
    if n <= 0 {
        Seq::empty()
    } else if is_inverted(steering_cos, n - 1) {
        inverted_before(steering_cos, n - 1).push((n - 1) as usize)
    } else {
        inverted_before(steering_cos, n - 1)
    }
}

/// The layers at which steering turns back.
pub fn inversion_layers(steering_cos: &[u64]) -> (layers: Vec<usize>)
    ensures
        layers@ == inverted_before(steering_cos@, steering_cos@.len() as int),
{
    let mut layers: Vec<usize> = Vec::new();
    let n: usize = steering_cos.len();
    let mut i: usize = 0;
    while i < n
        invariant
            i <= n,
            n == steering_cos@.len(),
            layers@ == inverted_before(steering_cos@, i as int),
        decreases n - i,
    {
        if ieee::is_less64(steering_cos[i], INVERTED_BELOW) {
            layers.push(i);
        }
        i = i + 1;
    }
    layers
}

/// The first inverted layer, at or after `from`.
pub open spec fn inversion_from(steering_cos: Seq<u64>, from: int) -> Option<int>
    decreases steering_cos.len() - from,
{
    if from < 0 || from >= steering_cos.len() {
        None
    } else if is_inverted(steering_cos, from) {
        Some(from)
    } else {
        inversion_from(steering_cos, from + 1)
    }
}

/// The first layer at which steering turns back.
pub fn inversion_onset(steering_cos: &[u64]) -> (onset: Option<usize>)
    ensures
        match onset {
            Some(l) => inversion_from(steering_cos@, 0) == Some(l as int),
            None => inversion_from(steering_cos@, 0) is None,
        },
{
    let n: usize = steering_cos.len();
    let mut i: usize = 0;
    while i < n
        invariant
            i <= n,
            n == steering_cos@.len(),
            inversion_from(steering_cos@, 0) == inversion_from(steering_cos@, i as int),
        decreases n - i,
    {
        if ieee::is_less64(steering_cos[i], INVERTED_BELOW) {
            return Some(i);
        }
        i = i + 1;
    }
    None
}

/// The first layer at or after `from` at which steering is aligned again.
pub open spec fn aligned_from(steering_cos: Seq<u64>, from: int) -> Option<int>
    decreases steering_cos.len() - from,
{
    if from < 0 || from >= steering_cos.len() {
        None
    } else if ieee::less64(REALIGNED_ABOVE, steering_cos[from]) {
        Some(from)
    } else {
        aligned_from(steering_cos, from + 1)
    }
}

/// Where steering is aligned again after it turned back.
pub open spec fn realignment_of(steering_cos: Seq<u64>) -> Option<int> {
    match inversion_from(steering_cos, 0) {
        Some(onset) => aligned_from(steering_cos, onset),
        None => None,
    }
}

/// The first layer at which steering is aligned again after it turned back.
pub fn realignment_onset(steering_cos: &[u64]) -> (at: Option<usize>)
    ensures
        match at {
            Some(l) => realignment_of(steering_cos@) == Some(l as int),
            None => realignment_of(steering_cos@) is None,
        },
{
    let onset: usize = match inversion_onset(steering_cos) {
        Some(l) => l,
        None => {
            return None;
        },
    };
    let n: usize = steering_cos.len();
    let mut i: usize = onset;
    while i < n
        invariant
            onset <= i,
            n == steering_cos@.len(),
            aligned_from(steering_cos@, onset as int) == aligned_from(steering_cos@, i as int),
            realignment_of(steering_cos@) == aligned_from(steering_cos@, onset as int),
        decreases n - i,
    {
        if ieee::is_less64(REALIGNED_ABOVE, steering_cos[i]) {
            return Some(i);
        }
        i = i + 1;
    }
    None
}

/// The layers to refresh at: where steering turns back, and where it is aligned
/// again.
pub open spec fn refresh_of(steering_cos: Seq<u64>) -> Seq<usize> {
    (match inversion_from(steering_cos, 0) {
        Some(l) => seq![l as usize],
        None => Seq::empty(),
    }) + (match realignment_of(steering_cos) {
        Some(l) => seq![l as usize],
        None => Seq::empty(),
    })
}

/// The layers to refresh at.
pub fn refresh_layers(steering_cos: &[u64]) -> (layers: Vec<usize>)
    ensures
        layers@ == refresh_of(steering_cos@),
{
    let mut layers: Vec<usize> = Vec::new();
    match inversion_onset(steering_cos) {
        Some(l) => {
            layers.push(l);
        },
        None => {},
    }
    match realignment_onset(steering_cos) {
        Some(l) => {
            layers.push(l);
        },
        None => {},
    }
    layers
}

proof fn lemma_inversion_from(steering_cos: Seq<u64>, from: int)
    requires
        0 <= from,
    ensures
        match inversion_from(steering_cos, from) {
            Some(l) => from <= l && is_inverted(steering_cos, l) && forall|k: int|
                from <= k < l ==> !is_inverted(steering_cos, k),
            None => forall|k: int| from <= k ==> !is_inverted(steering_cos, k),
        },
    decreases steering_cos.len() - from,
{
    if from < steering_cos.len() && !is_inverted(steering_cos, from) {
        lemma_inversion_from(steering_cos, from + 1);
    }
}

proof fn lemma_aligned_from(steering_cos: Seq<u64>, from: int)
    requires
        0 <= from,
    ensures
        match aligned_from(steering_cos, from) {
            Some(l) => from <= l < steering_cos.len() && ieee::less64(
                REALIGNED_ABOVE,
                steering_cos[l],
            ) && forall|k: int|
                from <= k < l ==> !ieee::less64(REALIGNED_ABOVE, steering_cos[k]),
            None => forall|k: int|
                from <= k < steering_cos.len() ==> !ieee::less64(REALIGNED_ABOVE, steering_cos[k]),
        },
    decreases steering_cos.len() - from,
{
    if from < steering_cos.len() && !ieee::less64(REALIGNED_ABOVE, steering_cos[from]) {
        lemma_aligned_from(steering_cos, from + 1);
    }
}

/// A layer is listed as inverted exactly when steering turns back there.
pub proof fn inversions_are_listed(steering_cos: Seq<u64>, n: int, l: usize)
    requires
        n <= usize::MAX,
    ensures
        inverted_before(steering_cos, n).contains(l) <==> l < n && is_inverted(
            steering_cos,
            l as int,
        ),
    decreases n,
{
    let list = inverted_before(steering_cos, n);
    if n > 0 {
        inversions_are_listed(steering_cos, n - 1, l);
        let front = inverted_before(steering_cos, n - 1);
        if is_inverted(steering_cos, n - 1) {
            if list.contains(l) {
                let i = list.index_of(l);
                if i < front.len() {
                    assert(front[i] == l);
                    assert(front.contains(l));
                }
            }
            if front.contains(l) {
                let i = front.index_of(l);
                assert(list[i] == l);
            }
            assert(list[list.len() - 1] == (n - 1) as usize);
        }
    }
}

/// Realignment comes after the first inversion, which comes before every other;
/// so the layers to refresh at ascend.
pub proof fn refreshes_ascend(steering_cos: Seq<u64>)
    requires
        steering_cos.len() <= usize::MAX,
    ensures
        forall|l: int|
            is_inverted(steering_cos, l) ==> (inversion_from(steering_cos, 0) matches Some(onset)
                && onset <= l),
        realignment_of(steering_cos) matches Some(at) ==> (inversion_from(
            steering_cos,
            0,
        ) matches Some(onset) && onset < at < steering_cos.len()),
        forall|i: int, j: int|
            0 <= i < j < refresh_of(steering_cos).len() ==> refresh_of(steering_cos)[i]
                < refresh_of(steering_cos)[j],
{
    lemma_inversion_from(steering_cos, 0);
    match inversion_from(steering_cos, 0) {
        Some(onset) => {
            lemma_aligned_from(steering_cos, onset);
            assert(is_inverted(steering_cos, onset));
            assert(!ieee::less64(REALIGNED_ABOVE, steering_cos[onset]));
        },
        None => {},
    }
}

// ---------------------------------------------------------------------------
// Policies
// ---------------------------------------------------------------------------

/// The zones from the input to the output.
pub open spec fn zone_at(k: int) -> LayerZone {
    if k <= 0 {
        LayerZone::Sync
    } else if k == 1 {
        LayerZone::Unfold
    } else if k == 2 {
        LayerZone::IsometricLocal
    } else if k == 3 {
        LayerZone::IsometricGlobal
    } else {
        LayerZone::Divergent
    }
}

/// The layers of a zone among the first `n`.
pub open spec fn layers_in(layers: Seq<LayerProfile>, zone: LayerZone, n: int) -> Seq<usize>
    decreases n,
{
    if n <= 0 {
        Seq::empty()
    } else if layers[n - 1].zone == Some(zone) {
        layers_in(layers, zone, n - 1).push(layers[n - 1].layer_idx)
    } else {
        layers_in(layers, zone, n - 1)
    }
}

/// What the layers of a zone need.
pub open spec fn rule_for(zone: LayerZone, layers: Seq<usize>) -> ZoneRule {
    ZoneRule {
        zone,
        layers,
        min_precision_bits: match zone {
            LayerZone::Sync => 4,
            LayerZone::Unfold => 16,
            LayerZone::IsometricLocal => 5,
            LayerZone::IsometricGlobal => 5,
            LayerZone::Divergent => 8,
        },
        stability_critical: zone is Unfold || zone is Divergent,
        force_full_attention: zone is Unfold || zone is IsometricGlobal || zone is Divergent,
        refresh_interval: 0,
    }
}

/// The rules of the first `k` zones, without those that have no layer.
pub open spec fn rules_before(layers: Seq<LayerProfile>, k: int) -> Seq<ZoneRule>
    decreases k,
{
    if k <= 0 {
        Seq::empty()
    } else {
        let zone = zone_at(k - 1);
        let inside = layers_in(layers, zone, layers.len() as int);
        if inside.len() > 0 {
            rules_before(layers, k - 1).push(rule_for(zone, inside))
        } else {
            rules_before(layers, k - 1)
        }
    }
}

/// The rules of all zones that have a layer.
pub open spec fn rules_of(layers: Seq<LayerProfile>) -> Seq<ZoneRule> {
    rules_before(layers, 5)
}

/// What the policies stand for.
pub open spec fn policy_views(policies: Seq<ZonePolicy>) -> Seq<ZoneRule> {
    policies.map_values(|p: ZonePolicy| p@)
}

fn zone_layers(layers: &[LayerProfile], zone: LayerZone) -> (inside: Vec<usize>)
    ensures
        inside@ == layers_in(layers@, zone, layers@.len() as int),
{
    let mut inside: Vec<usize> = Vec::new();
    let n: usize = layers.len();
    let mut i: usize = 0;
    while i < n
        invariant
            i <= n,
            n == layers@.len(),
            inside@ == layers_in(layers@, zone, i as int),
        decreases n - i,
    {
        match layers[i].zone {
            Some(z) => {
                if z == zone {
                    inside.push(layers[i].layer_idx);
                }
            },
            None => {},
        }
        i = i + 1;
    }
    inside
}

fn nth_zone(k: usize) -> (zone: LayerZone)
    ensures
        zone == zone_at(k as int),
{
    match k {
        0 => LayerZone::Sync,
        1 => LayerZone::Unfold,
        2 => LayerZone::IsometricLocal,
        3 => LayerZone::IsometricGlobal,
        _ => LayerZone::Divergent,
    }
}

/// What the layers of each zone need, for the zones that have a layer.
pub fn build_zone_policies(layers: &[LayerProfile]) -> (policies: Vec<ZonePolicy>)
    ensures
        policy_views(policies@) == rules_of(layers@),
{
    let mut policies: Vec<ZonePolicy> = Vec::new();
    let mut k: usize = 0;
    while k < 5
        invariant
            k <= 5,
            policy_views(policies@) == rules_before(layers@, k as int),
        decreases 5 - k,
    {
        let zone = nth_zone(k);
        let inside = zone_layers(layers, zone);
        if inside.len() > 0 {
            let min_precision_bits: u8 = match zone {
                LayerZone::Sync => 4,
                LayerZone::Unfold => 16,
                LayerZone::IsometricLocal => 5,
                LayerZone::IsometricGlobal => 5,
                LayerZone::Divergent => 8,
            };
            let ghost was = policies@;
            let policy = ZonePolicy {
                zone,
                layers: inside,
                min_precision_bits,
                stability_critical: matches!(zone, LayerZone::Unfold | LayerZone::Divergent),
                force_full_attention: matches!(
                    zone,
                    LayerZone::Unfold | LayerZone::IsometricGlobal | LayerZone::Divergent
                ),
                refresh_interval: 0,
            };
            assert(policy@ == rule_for(zone, policy.layers@));
            policies.push(policy);
            assert(policy_views(policies@) == policy_views(was).push(policies@.last()@));
        }
        k = k + 1;
    }
    policies
}

proof fn lemma_layers_in(layers: Seq<LayerProfile>, zone: LayerZone, n: int, i: int)
    requires
        0 <= i < n <= layers.len(),
        layers[i].zone == Some(zone),
    ensures
        layers_in(layers, zone, n).contains(layers[i].layer_idx),
    decreases n,
{
    let front = layers_in(layers, zone, n - 1);
    let list = layers_in(layers, zone, n);
    if i == n - 1 {
        assert(list[list.len() - 1] == layers[i].layer_idx);
    } else {
        lemma_layers_in(layers, zone, n - 1, i);
        let at = front.index_of(layers[i].layer_idx);
        assert(list[at] == layers[i].layer_idx);
    }
}

proof fn lemma_layers_from(layers: Seq<LayerProfile>, zone: LayerZone, n: int, l: usize)
    requires
        0 <= n <= layers.len(),
        layers_in(layers, zone, n).contains(l),
    ensures
        exists|i: int| 0 <= i < n && layers[i].layer_idx == l && layers[i].zone == Some(zone),
    decreases n,
{
    let list = layers_in(layers, zone, n);
    if n > 0 {
        let front = layers_in(layers, zone, n - 1);
        let at = list.index_of(l);
        if at < front.len() {
            assert(front[at] == l);
            lemma_layers_from(layers, zone, n - 1, l);
        }
    }
}

proof fn lemma_rules(layers: Seq<LayerProfile>, k: int)
    requires
        0 <= k <= 5,
    ensures
        forall|i: int|
            #![trigger rules_before(layers, k)[i]]
            0 <= i < rules_before(layers, k).len() ==> exists|z: int|
                0 <= z < k && rules_before(layers, k)[i] == rule_for(
                    #[trigger] zone_at(z),
                    layers_in(layers, zone_at(z), layers.len() as int),
                ),
        forall|z: int|
            0 <= z < k && layers_in(layers, #[trigger] zone_at(z), layers.len() as int).len() > 0
                ==> rules_before(layers, k).contains(
                rule_for(zone_at(z), layers_in(layers, zone_at(z), layers.len() as int)),
            ),
    decreases k,
{
    if k > 0 {
        lemma_rules(layers, k - 1);
        let front = rules_before(layers, k - 1);
        let list = rules_before(layers, k);
        assert forall|i: int| #![trigger list[i]] 0 <= i < list.len() implies exists|z: int|
            0 <= z < k && list[i] == rule_for(
                #[trigger] zone_at(z),
                layers_in(layers, zone_at(z), layers.len() as int),
            ) by {
            if i < front.len() {
                assert(list[i] == front[i]);
            } else {
                assert(list[i] == rule_for(
                    zone_at(k - 1),
                    layers_in(layers, zone_at(k - 1), layers.len() as int),
                ));
            }
        }
        assert forall|z: int|
            0 <= z < k && layers_in(layers, #[trigger] zone_at(z), layers.len() as int).len()
                > 0 implies list.contains(
            rule_for(zone_at(z), layers_in(layers, zone_at(z), layers.len() as int)),
        ) by {
            let rule = rule_for(zone_at(z), layers_in(layers, zone_at(z), layers.len() as int));
            if z < k - 1 {
                let at = front.index_of(rule);
                assert(list[at] == rule);
            } else {
                assert(list[list.len() - 1] == rule);
            }
        }
    }
}

/// A layer is named by the policy of its zone, and a policy names only layers of
/// its zone.
pub proof fn policies_cover_the_layers(layers: Seq<LayerProfile>)
    ensures
        forall|i: int|
            0 <= i < layers.len() ==> (#[trigger] layers[i].zone matches Some(zone)
                ==> exists|r: int|
                0 <= r < rules_of(layers).len() && (#[trigger] rules_of(layers)[r]).zone == zone
                    && rules_of(layers)[r].layers.contains(layers[i].layer_idx)),
        forall|r: int, l: usize|
            0 <= r < rules_of(layers).len() && #[trigger] rules_of(layers)[r].layers.contains(l)
                ==> exists|i: int|
                0 <= i < layers.len() && layers[i].layer_idx == l && #[trigger] layers[i].zone
                    == Some(rules_of(layers)[r].zone),
{
    let rules = rules_of(layers);
    let n = layers.len() as int;
    lemma_rules(layers, 5);
    assert forall|i: int| 0 <= i < layers.len() implies (#[trigger] layers[i].zone matches Some(
        zone,
    ) ==> exists|r: int|
        0 <= r < rules.len() && (#[trigger] rules[r]).zone == zone && rules[r].layers.contains(
            layers[i].layer_idx,
        )) by {
        match layers[i].zone {
            Some(zone) => {
                let z: int = match zone {
                    LayerZone::Sync => 0,
                    LayerZone::Unfold => 1,
                    LayerZone::IsometricLocal => 2,
                    LayerZone::IsometricGlobal => 3,
                    LayerZone::Divergent => 4,
                };
                assert(zone_at(z) == zone);
                lemma_layers_in(layers, zone, n, i);
                let rule = rule_for(zone, layers_in(layers, zone, n));
                assert(rules.contains(rule));
                let r = rules.index_of(rule);
                assert(rules[r] == rule);
            },
            None => {},
        }
    }
    assert forall|r: int, l: usize|
        0 <= r < rules.len() && #[trigger] rules[r].layers.contains(l) implies exists|i: int|
        0 <= i < layers.len() && layers[i].layer_idx == l && #[trigger] layers[i].zone == Some(
            rules[r].zone,
        ) by {
        let z = choose|z: int|
            0 <= z < 5 && rules[r] == rule_for(
                #[trigger] zone_at(z),
                layers_in(layers, zone_at(z), n),
            );
        lemma_layers_from(layers, zone_at(z), n, l);
    }
}

/// Zones in which errors grow get eight bits at least, and full attention.
pub proof fn critical_zones_are_precise(layers: Seq<LayerProfile>, r: int)
    requires
        0 <= r < rules_of(layers).len(),
    ensures
        rules_of(layers)[r].stability_critical ==> rules_of(layers)[r].min_precision_bits >= 8
            && rules_of(layers)[r].force_full_attention,
        rules_of(layers)[r].layers.len() > 0,
{
    lemma_rules(layers, 5);
    lemma_rules_have_layers(layers, 5, r);
    let z = choose|z: int|
        0 <= z < 5 && rules_of(layers)[r] == rule_for(
            #[trigger] zone_at(z),
            layers_in(layers, zone_at(z), layers.len() as int),
        );
    assert(rules_of(layers)[r].zone == zone_at(z));
}

proof fn lemma_rules_have_layers(layers: Seq<LayerProfile>, k: int, r: int)
    requires
        0 <= k <= 5,
        0 <= r < rules_before(layers, k).len(),
    ensures
        rules_before(layers, k)[r].layers.len() > 0,
    decreases k,
{
    if k > 0 && r < rules_before(layers, k - 1).len() {
        lemma_rules_have_layers(layers, k - 1, r);
    }
}

// ---------------------------------------------------------------------------
// Profiles
// ---------------------------------------------------------------------------

/// What was measured, layer by layer.
#[derive(Debug)]
pub struct GeometryFacts {
    pub steering_cos: Vec<u64>,
    pub intra_cos: Vec<Option<u64>>,
    pub effective_ranks: Vec<u64>,
    pub layer_norms: Vec<u64>,
    pub relative_steering: Vec<u64>,
    pub position_gradient: Vec<u64>,
    pub lyapunov: Vec<Option<u64>>,
}

impl GeometryFacts {
    /// The coupling, the rank and the growth of each layer are there.
    pub open spec fn covers(&self, n_layers: nat) -> bool {
        &&& self.intra_cos@.len() >= n_layers
        &&& self.effective_ranks@.len() >= n_layers
        &&& self.lyapunov@.len() >= n_layers
    }
}

/// What a list holds at a place, if it is long enough.
pub open spec fn value_at(list: Seq<u64>, i: int) -> Option<u64> {
    if 0 <= i < list.len() {
        Some(list[i])
    } else {
        None
    }
}

fn get_value(list: &[u64], i: usize) -> (v: Option<u64>)
    ensures
        v == value_at(list@, i as int),
{
    if i < list.len() {
        Some(list[i])
    } else {
        None
    }
}

/// The profile of a layer.
pub open spec fn layer_of(facts: GeometryFacts, n_layers: nat, l: int) -> LayerProfile {
    LayerProfile {
        layer_idx: l as usize,
        steering_cos: value_at(facts.steering_cos@, l),
        intra_cos: facts.intra_cos@[l],
        effective_rank: facts.effective_ranks@[l],
        residual_cos: None,
        hidden_norm: value_at(facts.layer_norms@, l),
        relative_steering: value_at(facts.relative_steering@, l),
        position_gradient: value_at(facts.position_gradient@, l),
        non_normality: None,
        zone: Some(zone_of(l as nat, n_layers, facts.steering_cos@)),
        lyapunov_estimate: facts.lyapunov@[l],
    }
}

/// The profiles of all layers.
pub open spec fn layers_of(facts: GeometryFacts, n_layers: nat) -> Seq<LayerProfile> {
    Seq::new(n_layers, |l: int| layer_of(facts, n_layers, l))
}

/// The profiles of all layers.
pub fn layer_profiles(facts: &GeometryFacts, n_layers: usize) -> (layers: Vec<LayerProfile>)
    requires
        facts.covers(n_layers as nat),
    ensures
        layers@ == layers_of(*facts, n_layers as nat),
{
    let mut layers: Vec<LayerProfile> = Vec::new();
    let mut l: usize = 0;
    while l < n_layers
        invariant
            l <= n_layers,
            facts.covers(n_layers as nat),
            layers@ == layers_of(*facts, n_layers as nat).take(l as int),
        decreases n_layers - l,
    {
        let ghost all = layers_of(*facts, n_layers as nat);
        layers.push(
            LayerProfile {
                layer_idx: l,
                steering_cos: get_value(facts.steering_cos.as_slice(), l),
                intra_cos: facts.intra_cos[l],
                effective_rank: facts.effective_ranks[l],
                residual_cos: None,
                hidden_norm: get_value(facts.layer_norms.as_slice(), l),
                relative_steering: get_value(facts.relative_steering.as_slice(), l),
                position_gradient: get_value(facts.position_gradient.as_slice(), l),
                non_normality: None,
                zone: Some(classify_zone(l, n_layers, facts.steering_cos.as_slice())),
                lyapunov_estimate: facts.lyapunov[l],
            },
        );
        assert(layers@.last() == all[l as int]);
        assert(all.take(l + 1) == all.take(l as int).push(all[l as int]));
        l = l + 1;
    }
    assert(layers_of(*facts, n_layers as nat).take(n_layers as int) == layers_of(
        *facts,
        n_layers as nat,
    ));
    layers
}

/// The sizes of a model.
#[derive(Debug, Clone)]
pub struct ModelShape {
    pub model_name: String,
    pub n_layers: usize,
    pub hidden_dim: usize,
    pub ffn_dim: usize,
    pub n_heads: usize,
    pub n_kv_heads: usize,
    pub head_dim: usize,
    pub vocab_size: usize,
}

/// What was computed over all layers.
#[derive(Debug, Clone, Copy)]
pub struct GeometryMeans {
    pub mean_intra: u64,
    pub intra_std: u64,
    pub mean_rank: u64,
    pub mean_cos: u64,
    pub coupling_strength: u64,
    pub ffn_compression_ratio: u64,
}

/// The geometry of a model.
#[derive(Debug)]
pub struct PhaseProfile {
    pub shape: ModelShape,
    pub phase: Phase,
    pub family: Family,
    pub layers: Vec<LayerProfile>,
    pub inversion_layers: Vec<usize>,
    pub inversion_onset: Option<usize>,
    pub realignment_onset: Option<usize>,
    pub refresh_layers: Vec<usize>,
    pub coupling_strength: u64,
    pub ffn_compression_ratio: u64,
    pub zone_policies: Vec<ZonePolicy>,
}

/// An index that was found, or none.
pub open spec fn same_index(found: Option<usize>, at: Option<int>) -> bool {
    match found {
        Some(i) => at == Some(i as int),
        None => at is None,
    }
}

/// The geometry of a model, from what was measured of its layers.
pub fn phase_profile(shape: ModelShape, facts: &GeometryFacts, means: &GeometryMeans) -> (profile:
    PhaseProfile)
    requires
        facts.covers(shape.n_layers as nat),
    ensures
        profile.shape == shape,
        profile.phase == phase_of(means.mean_intra, means.mean_rank, means.intra_std),
        profile.family == family_of(means.mean_intra, means.mean_cos),
        profile.layers@ == layers_of(*facts, shape.n_layers as nat),
        profile.inversion_layers@ == inverted_before(
            facts.steering_cos@,
            facts.steering_cos@.len() as int,
        ),
        same_index(profile.inversion_onset, inversion_from(facts.steering_cos@, 0)),
        same_index(profile.realignment_onset, realignment_of(facts.steering_cos@)),
        profile.refresh_layers@ == refresh_of(facts.steering_cos@),
        profile.coupling_strength == means.coupling_strength,
        profile.ffn_compression_ratio == means.ffn_compression_ratio,
        policy_views(profile.zone_policies@) == rules_of(
            layers_of(*facts, shape.n_layers as nat),
        ),
{
    let steering = facts.steering_cos.as_slice();
    let layers = layer_profiles(facts, shape.n_layers);
    let zone_policies = build_zone_policies(layers.as_slice());
    PhaseProfile {
        shape,
        phase: classify_phase(means.mean_intra, means.mean_rank, means.intra_std),
        family: classify_family(means.mean_intra, means.mean_cos),
        layers,
        inversion_layers: inversion_layers(steering),
        inversion_onset: inversion_onset(steering),
        realignment_onset: realignment_onset(steering),
        refresh_layers: refresh_layers(steering),
        coupling_strength: means.coupling_strength,
        ffn_compression_ratio: means.ffn_compression_ratio,
        zone_policies,
    }
}

/// Every layer of a profile is named by exactly the policy of its zone.
pub proof fn profiles_cover_the_layers(facts: GeometryFacts, n_layers: nat, l: nat)
    requires
        l < n_layers <= usize::MAX,
        facts.covers(n_layers),
    ensures
        exists|r: int|
            0 <= r < rules_of(layers_of(facts, n_layers)).len() && (#[trigger] rules_of(
                layers_of(facts, n_layers),
            )[r]).zone == zone_of(l, n_layers, facts.steering_cos@) && rules_of(
                layers_of(facts, n_layers),
            )[r].layers.contains(l as usize),
        forall|r: int|
            0 <= r < rules_of(layers_of(facts, n_layers)).len() && (#[trigger] rules_of(
                layers_of(facts, n_layers),
            )[r]).layers.contains(l as usize) ==> rules_of(layers_of(facts, n_layers))[r].zone
                == zone_of(l, n_layers, facts.steering_cos@),
{
    let layers = layers_of(facts, n_layers);
    policies_cover_the_layers(layers);
    assert(layers[l as int].zone == Some(zone_of(l, n_layers, facts.steering_cos@)));
    assert(layers[l as int].layer_idx == l as usize);
    assert forall|r: int|
        0 <= r < rules_of(layers).len() && (#[trigger] rules_of(layers)[r]).layers.contains(
            l as usize,
        ) implies rules_of(layers)[r].zone == zone_of(l, n_layers, facts.steering_cos@) by {
        let i = choose|i: int|
            0 <= i < layers.len() && layers[i].layer_idx == l as usize && #[trigger] layers[i].zone
                == Some(rules_of(layers)[r].zone);
        assert(layers[i].layer_idx == i as usize);
        assert(i == l);
    }
}

// ---------------------------------------------------------------------------
// Weights
// ---------------------------------------------------------------------------

/// The whole decomposition is computed for small matrices only.
pub fn is_small_matrix(rows: usize, cols: usize) -> (small: bool)
    ensures
        small == (2 * rows < 2048 && cols < 2048),
{
    rows < 1024 && cols < 2048
}

/// The name of a weight of a layer under a prefix.
pub open spec fn weight_name(prefix: Seq<char>, l: usize, name: Seq<char>) -> Seq<char> {
    prefix + "."@ + text::decimal(l as nat) + ".mlp."@ + name + ".weight"@
}

fn make_weight_name(prefix: &str, l: usize, name: &str) -> (s: String)
    ensures
        s@ == weight_name(prefix@, l, name@),
{
    let mut s = prefix.to_owned();
    s.append(".");
    text::push_usize(&mut s, l);
    s.append(".mlp.");
    s.append(name);
    s.append(".weight");
    s
}

/// The names under which a weight of a layer may be stored, the preferred first.
pub fn weight_names(l: usize, name: &str) -> (names: (String, String))
    ensures
        names.0@ == weight_name("model.layers"@, l, name@),
        names.1@ == weight_name("model.language_model.layers"@, l, name@),
{
    (
        make_weight_name("model.layers", l, name),
        make_weight_name("model.language_model.layers", l, name),
    )
}

/// The name under which a weight of a layer is stored, given whether the model has
/// the first and the second of its names.
pub fn stored_weight_name(l: usize, name: &str, has_first: bool, has_second: bool) -> (r: Result<
    String,
    ObjetaError,
>)
    ensures
        match r {
            Ok(s) => (has_first && s@ == weight_name("model.layers"@, l, name@)) || (!has_first
                && has_second && s@ == weight_name("model.language_model.layers"@, l, name@)),
            Err(e) => !has_first && !has_second && e is MissingTensor && e.message()
                == "Missing tensor: "@ + ("layer "@ + text::decimal(l as nat) + ".mlp."@ + name@
                + ".weight"@),
        },
{
    let (first, second) = weight_names(l, name);
    if has_first {
        return Ok(first);
    }
    if has_second {
        return Ok(second);
    }
    let mut m = "layer ".to_owned();
    text::push_usize(&mut m, l);
    m.append(".mlp.");
    m.append(name);
    m.append(".weight");
    Err(ObjetaError::MissingTensor(m))
}

// ---------------------------------------------------------------------------
// Laws of zones
// ---------------------------------------------------------------------------

/// The first two layers synchronize and the third unfolds. From seven tenths of
/// the layers on they diverge. Between them those that are inverted are global, and
/// the others local.
pub proof fn zones_part_the_layers(l: nat, n_layers: nat, steering_cos: Seq<u64>)
    ensures
        ({
            let zone = zone_of(l, n_layers, steering_cos);
            &&& zone == LayerZone::Sync <==> l < 2
            &&& zone == LayerZone::Unfold <==> l == 2
            &&& zone == LayerZone::Divergent <==> l > 2 && 10 * l >= 7 * n_layers
            &&& zone == LayerZone::IsometricGlobal <==> l > 2 && 10 * l < 7 * n_layers && l
                < steering_cos.len() && ieee::less64(steering_cos[l as int], INVERTED_BELOW)
            &&& zone == LayerZone::IsometricLocal <==> l > 2 && 10 * l < 7 * n_layers && !(l
                < steering_cos.len() && ieee::less64(steering_cos[l as int], INVERTED_BELOW))
        }),
{
}

/// Zones have different letters, and no zone has one of its own.
pub proof fn zones_are_told_apart(a: Option<LayerZone>, b: Option<LayerZone>)
    requires
        letter_of(a) == letter_of(b),
    ensures
        a == b,
{
}

/// How many bits a zone asks for: most where layers unfold, then where they
/// diverge, then in the middle, and fewest where they synchronize. Where eight bits
/// or more are asked for the layer is critical. Attention is full wherever layers
/// do more than act locally, and no zone is refreshed.
pub proof fn zones_ask_for_precision(layers: Seq<LayerProfile>, r: int)
    requires
        0 <= r < rules_of(layers).len(),
    ensures
        ({
            let p = rules_of(layers)[r];
            &&& p.min_precision_bits == 16 <==> p.zone == LayerZone::Unfold
            &&& p.min_precision_bits == 8 <==> p.zone == LayerZone::Divergent
            &&& p.min_precision_bits == 4 <==> p.zone == LayerZone::Sync
            &&& p.min_precision_bits == 5 <==> p.zone == LayerZone::IsometricLocal || p.zone
                == LayerZone::IsometricGlobal
            &&& p.stability_critical <==> p.min_precision_bits >= 8
            &&& p.force_full_attention <==> p.zone != LayerZone::Sync && p.zone
                != LayerZone::IsometricLocal
            &&& p.refresh_interval == 0
        }),
{
    lemma_rules_are_rules(layers, 5, r);
}

proof fn lemma_rules_are_rules(layers: Seq<LayerProfile>, k: int, r: int)
    requires
        0 <= r < rules_before(layers, k).len(),
    ensures
        exists|zone: LayerZone, inside: Seq<usize>|
            rules_before(layers, k)[r] == #[trigger] rule_for(zone, inside),
    decreases k,
{
    if k > 0 {
        let zone = zone_at(k - 1);
        let inside = layers_in(layers, zone, layers.len() as int);
        let front = rules_before(layers, k - 1);
        if r < front.len() {
            lemma_rules_are_rules(layers, k - 1, r);
        } else {
            assert(rules_before(layers, k)[r] == rule_for(zone, inside));
        }
    }
}

/// The limits of the classification: a similarity of minus a hundredth, a
/// twentieth, 0.95, 0.3, a tenth and 0.9, and a rank of three.
pub proof fn limits_are_shares()
    ensures
        INVERTED_BELOW >= 0x8000_0000_0000_0000,
        ieee::nearest64((INVERTED_BELOW - 0x8000_0000_0000_0000) as u64, 1, 100),
        ieee::nearest64(REALIGNED_ABOVE, 1, 20),
        ieee::nearest64(COLLAPSE_ABOVE, 95, 100),
        ieee::nearest64(MIXED_ABOVE, 3, 10),
        ieee::nearest64(STEERING_BELOW, 1, 10),
        ieee::nearest64(COUPLED_ABOVE, 9, 10),
        ieee::nearest64(COLLAPSE_RANK_BELOW, 3, 1),
{
    lemma2_to64_rest();
}

/// A model collapses exactly where its layers agree above 0.95 and its rank is
/// below three. Else its field is mixed exactly where the agreement spreads above
/// 0.3.
pub proof fn phases_are_exact(mean_intra: u64, eff_rank: u64, intra_std: u64)
    ensures
        phase_of(mean_intra, eff_rank, intra_std) == Phase::Collapse1D <==> ieee::less64(
            COLLAPSE_ABOVE,
            mean_intra,
        ) && ieee::less64(eff_rank, COLLAPSE_RANK_BELOW),
        phase_of(mean_intra, eff_rank, intra_std) == Phase::MixedField <==> phase_of(
            mean_intra,
            eff_rank,
            intra_std,
        ) != Phase::Collapse1D && ieee::less64(MIXED_ABOVE, intra_std),
{
}

/// A model steers exactly where its steering is below a tenth in size, whatever its
/// sign, and its layers agree above 0.9.
pub proof fn families_are_exact(mean_intra: u64, mean_cos: u64)
    ensures
        family_of(mean_intra, mean_cos) == Family::SphericalSteering <==> ieee::less64(
            unsigned64(mean_cos),
            STEERING_BELOW,
        ) && ieee::less64(COUPLED_ABOVE, mean_intra),
        unsigned64(mean_cos) < 0x8000_0000_0000_0000,
        unsigned64(mean_cos) % 0x8000_0000_0000_0000 == mean_cos % 0x8000_0000_0000_0000,
        mean_cos < 0x8000_0000_0000_0000 ==> family_of(mean_intra, mean_cos) == family_of(
            mean_intra,
            (mean_cos + 0x8000_0000_0000_0000) as u64,
        ),
{
}

/// Realignment is the first layer from the onset of inversion on that is aligned
/// again, and the onset is the first inverted layer.
pub proof fn onsets_are_first(steering_cos: Seq<u64>)
    ensures
        match inversion_from(steering_cos, 0) {
            Some(l) => 0 <= l < steering_cos.len() && ieee::less64(steering_cos[l], INVERTED_BELOW)
                && forall|j: int|
                0 <= j < l ==> !ieee::less64(#[trigger] steering_cos[j], INVERTED_BELOW),
            None => realignment_of(steering_cos) is None && forall|j: int|
                0 <= j < steering_cos.len() ==> !ieee::less64(
                    #[trigger] steering_cos[j],
                    INVERTED_BELOW,
                ),
        },
        realignment_of(steering_cos) matches Some(at) ==> {
            &&& 0 <= at < steering_cos.len()
            &&& ieee::less64(REALIGNED_ABOVE, steering_cos[at])
            &&& forall|j: int|
                inversion_from(steering_cos, 0)->0 <= j < at ==> !ieee::less64(
                    REALIGNED_ABOVE,
                    #[trigger] steering_cos[j],
                )
        },
        inversion_from(steering_cos, 0) is Some && realignment_of(steering_cos) is None
            ==> forall|j: int|
            inversion_from(steering_cos, 0)->0 <= j < steering_cos.len() ==> !ieee::less64(
                REALIGNED_ABOVE,
                #[trigger] steering_cos[j],
            ),
{
    lemma_first_inversion(steering_cos, 0);
    if let Some(l) = inversion_from(steering_cos, 0) {
        lemma_first_alignment(steering_cos, l);
    }
}

proof fn lemma_first_inversion(steering_cos: Seq<u64>, from: int)
    requires
        0 <= from <= steering_cos.len(),
    ensures
        match inversion_from(steering_cos, from) {
            Some(l) => from <= l < steering_cos.len() && ieee::less64(
                steering_cos[l],
                INVERTED_BELOW,
            ) && forall|j: int|
                from <= j < l ==> !ieee::less64(#[trigger] steering_cos[j], INVERTED_BELOW),
            None => forall|j: int|
                from <= j < steering_cos.len() ==> !ieee::less64(
                    #[trigger] steering_cos[j],
                    INVERTED_BELOW,
                ),
        },
    decreases steering_cos.len() - from,
{
    if from < steering_cos.len() {
        lemma_first_inversion(steering_cos, from + 1);
    }
}

proof fn lemma_first_alignment(steering_cos: Seq<u64>, from: int)
    requires
        0 <= from <= steering_cos.len(),
    ensures
        match aligned_from(steering_cos, from) {
            Some(l) => from <= l < steering_cos.len() && ieee::less64(
                REALIGNED_ABOVE,
                steering_cos[l],
            ) && forall|j: int|
                from <= j < l ==> !ieee::less64(REALIGNED_ABOVE, #[trigger] steering_cos[j]),
            None => forall|j: int|
                from <= j < steering_cos.len() ==> !ieee::less64(
                    REALIGNED_ABOVE,
                    #[trigger] steering_cos[j],
                ),
        },
    decreases steering_cos.len() - from,
{
    if from < steering_cos.len() {
        lemma_first_alignment(steering_cos, from + 1);
    }
}

/// The name of a weight starts with its prefix, tells the layer and the weight, and
/// ends as all weights do.
pub proof fn weight_names_tell_layers(prefix: Seq<char>, l: usize, name: Seq<char>)
    ensures
        text::occurs_at(weight_name(prefix, l, name), prefix, 0),
        text::contains_text(
            weight_name(prefix, l, name),
            "."@ + text::decimal(l as nat) + ".mlp."@ + name,
        ),
        text::ends_with_text(weight_name(prefix, l, name), ".weight"@),
{
    let s = weight_name(prefix, l, name);
    let row = "."@ + text::decimal(l as nat) + ".mlp."@ + name;
    assert(s == prefix + row + ".weight"@);
    text::middles_are_contained(prefix, row, ".weight"@);
    assert(s.subrange(0, prefix.len() as int) == prefix);
    assert(s.subrange(s.len() - ".weight"@.len(), s.len() as int) == ".weight"@);
}

} // verus!
