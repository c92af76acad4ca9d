//! The expert layout of a model, built from the names of its tensors.

use crate::aot::keyed;
use crate::aot::types::{
    ExpertEntry, ExpertKey, ExpertLayout, ExpertLayoutKind, ExpertTensorKind, ModelConfig,
    PackedExpertLayerEntry, ParsedTensorName, RouterEntry, SafeTensorsIndex, SharedExpertEntry,
    TensorRef, UnknownTensorEntry,
};
use crate::aot::util;
use crate::text;
use vstd::prelude::*;
use vstd::string::*;

verus! {

// ---------------------------------------------------------------------------
// Names
// ---------------------------------------------------------------------------

/// What a tensor is, by its name. The first rule that fits decides.
pub open spec fn kind_of(name: Seq<char>) -> ExpertTensorKind {
    let numbered = util::number_after(name, "experts."@) is Some;
    if text::contains_text(name, ".shared_expert_gate.weight"@) {
        ExpertTensorKind::Shared
    } else if text::contains_text(name, ".mlp.gate.weight"@) && !text::contains_text(
        name,
        ".experts."@,
    ) {
        ExpertTensorKind::Router
    } else if text::contains_text(name, ".mlp.experts.gate_up_proj"@) && !numbered {
        ExpertTensorKind::PackedGateUp
    } else if text::contains_text(name, ".mlp.experts.down_proj"@) && !numbered {
        ExpertTensorKind::PackedDown
    } else if text::contains_text(name, "gate_up_proj"@) {
        ExpertTensorKind::GateUp
    } else if text::contains_text(name, "gate_proj"@) {
        ExpertTensorKind::Gate
    } else if text::contains_text(name, "up_proj"@) {
        ExpertTensorKind::Up
    } else if text::contains_text(name, "down_proj"@) {
        ExpertTensorKind::Down
    } else {
        ExpertTensorKind::Unknown
    }
}

/// The tensor belongs to a shared expert.
pub open spec fn names_shared(name: Seq<char>) -> bool {
    text::contains_text(name, ".shared_expert."@)
}

/// The tensor holds all experts of a layer.
pub open spec fn names_packed(name: Seq<char>) -> bool {
    text::contains_text(name, ".mlp.experts.gate_up_proj"@) || text::contains_text(
        name,
        ".mlp.experts.down_proj"@,
    )
}

/// Reads a tensor's name.
pub fn parse_qwen_tensor_name(tensor_name: &str, source_file: &str) -> (p: ParsedTensorName)
    ensures
        p.layer_idx == util::number_after(tensor_name@, "layers."@),
        p.expert_id == util::number_after(tensor_name@, "experts."@),
        p.tensor_kind == kind_of(tensor_name@),
        p.is_shared == names_shared(tensor_name@),
        p.is_packed_experts == names_packed(tensor_name@),
        p.tensor_name@ == tensor_name@,
        p.source_file@ == source_file@,
{
    let expert_id = util::extract_number_after(tensor_name, "experts.");
    let gate_up = text::text_contains(tensor_name, ".mlp.experts.gate_up_proj");
    let down = text::text_contains(tensor_name, ".mlp.experts.down_proj");
    let tensor_kind = if text::text_contains(tensor_name, ".shared_expert_gate.weight") {
        ExpertTensorKind::Shared
    } else if text::text_contains(tensor_name, ".mlp.gate.weight") && !text::text_contains(
        tensor_name,
        ".experts.",
    ) {
        ExpertTensorKind::Router
    } else if gate_up && expert_id.is_none() {
        ExpertTensorKind::PackedGateUp
    } else if down && expert_id.is_none() {
        ExpertTensorKind::PackedDown
    } else if text::text_contains(tensor_name, "gate_up_proj") {
        ExpertTensorKind::GateUp
    } else if text::text_contains(tensor_name, "gate_proj") {
        ExpertTensorKind::Gate
    } else if text::text_contains(tensor_name, "up_proj") {
        ExpertTensorKind::Up
    } else if text::text_contains(tensor_name, "down_proj") {
        ExpertTensorKind::Down
    } else {
        ExpertTensorKind::Unknown
    };
    ParsedTensorName {
        layer_idx: util::extract_number_after(tensor_name, "layers."),
        expert_id,
        tensor_kind,
        is_shared: text::text_contains(tensor_name, ".shared_expert."),
        is_packed_experts: gate_up || down,
        tensor_name: tensor_name.to_owned(),
        source_file: source_file.to_owned(),
    }
}

// ---------------------------------------------------------------------------
// The layout as a value
// ---------------------------------------------------------------------------

/// What is known of a tensor.
#[verifier::ext_equal]
pub struct TensorFacts {
    pub kind: ExpertTensorKind,
    pub name: Seq<char>,
    pub file: Seq<char>,
    pub shape: Option<Seq<usize>>,
    pub dtype: Option<Seq<char>>,
    pub byte_offset: Option<u64>,
    pub byte_len: Option<u64>,
}

/// What a reference to a tensor says.
pub open spec fn facts(t: TensorRef) -> TensorFacts {
    TensorFacts {
        kind: t.tensor_kind,
        name: t.tensor_name@,
        file: t.source_file@,
        shape: match t.shape {
            Some(v) => Some(v@),
            None => None,
        },
        dtype: match t.dtype {
            Some(d) => Some(d@),
            None => None,
        },
        byte_offset: t.byte_offset,
        byte_len: t.byte_len,
    }
}

/// What a tensor's name says. Its size is not known from it.
pub open spec fn facts_of_name(name: Seq<char>, file: Seq<char>) -> TensorFacts {
    TensorFacts {
        kind: kind_of(name),
        name,
        file,
        shape: None,
        dtype: None,
        byte_offset: None,
        byte_len: None,
    }
}

/// What an optional reference says.
pub open spec fn opt_facts(t: Option<TensorRef>) -> Option<TensorFacts> {
    match t {
        Some(r) => Some(facts(r)),
        None => None,
    }
}

/// The tensors of a routed or shared expert.
#[verifier::ext_equal]
pub struct Slots {
    pub gate: Option<TensorFacts>,
    pub up: Option<TensorFacts>,
    pub gate_up: Option<TensorFacts>,
    pub down: Option<TensorFacts>,
    pub shared_gate: Option<TensorFacts>,
    pub files: Set<Seq<char>>,
}

/// No tensors.
pub open spec fn no_slots() -> Slots {
    Slots {
        gate: None,
        up: None,
        gate_up: None,
        down: None,
        shared_gate: None,
        files: Set::empty(),
    }
}

/// The tensors with one more, in the place of its kind.
pub open spec fn with_tensor(s: Slots, t: TensorFacts) -> Slots {
    match t.kind {
        ExpertTensorKind::Gate => Slots { gate: Some(t), ..s },
        ExpertTensorKind::Up => Slots { up: Some(t), ..s },
        ExpertTensorKind::GateUp => Slots { gate_up: Some(t), ..s },
        ExpertTensorKind::Down => Slots { down: Some(t), ..s },
        ExpertTensorKind::Shared => Slots { shared_gate: Some(t), ..s },
        _ => s,
    }
}

/// The tensors of a packed layer with one more, in the place of its kind.
pub open spec fn with_packed(s: Slots, t: TensorFacts) -> Slots {
    match t.kind {
        ExpertTensorKind::PackedGateUp => Slots { gate_up: Some(t), ..s },
        ExpertTensorKind::PackedDown => Slots { down: Some(t), ..s },
        _ => s,
    }
}

/// The tensors with one more file.
pub open spec fn with_file(s: Slots, file: Seq<char>) -> Slots {
    Slots { files: s.files.insert(file), ..s }
}

/// An expert can be computed: it has its projections, the first two of them apart
/// or as one.
pub open spec fn is_complete(s: Slots) -> bool {
    if s.gate_up is Some {
        s.down is Some
    } else {
        s.gate is Some && s.up is Some && s.down is Some
    }
}

/// A layer of packed experts can be computed.
pub open spec fn is_packed_complete(s: Slots) -> bool {
    s.gate_up is Some && s.down is Some
}

/// What is known of a model's layout.
#[verifier::ext_equal]
pub struct LayoutState {
    pub experts: Map<ExpertKey, Slots>,
    pub packed: Map<u32, Slots>,
    pub shared: Map<u32, Slots>,
    pub routers: Map<u32, TensorFacts>,
    pub unknown: Seq<(Seq<char>, Seq<char>)>,
    pub warnings: Seq<Seq<char>>,
    pub saw_packed: bool,
}

/// Nothing is known.
pub open spec fn nothing() -> LayoutState {
    LayoutState {
        experts: Map::empty(),
        packed: Map::empty(),
        shared: Map::empty(),
        routers: Map::empty(),
        unknown: Seq::empty(),
        warnings: Seq::empty(),
        saw_packed: false,
    }
}

/// The tensors under a key, none where the key is new.
pub open spec fn slots_at<K>(m: Map<K, Slots>, k: K) -> Slots {
    if m.contains_key(k) {
        m[k]
    } else {
        no_slots()
    }
}

/// The tensor counts as unknown.
pub open spec fn as_unknown(s: LayoutState, name: Seq<char>, file: Seq<char>) -> LayoutState {
    LayoutState { unknown: s.unknown.push((name, file)), ..s }
}

/// The tensor gives rise to a warning.
pub open spec fn warned(s: LayoutState, what: Seq<char>, name: Seq<char>) -> LayoutState {
    LayoutState { warnings: s.warnings.push(what + name), ..s }
}

/// What is known once a tensor of a shared expert has been seen.
pub open spec fn with_shared(s: LayoutState, what: Seq<char>, t: TensorFacts) -> LayoutState {
    match util::number_after(t.name, "layers."@) {
        Some(layer) => LayoutState {
            shared: s.shared.insert(layer, with_tensor(slots_at(s.shared, layer), t)),
            ..s
        },
        None => warned(s, what, t.name),
    }
}

/// What is known once a tensor has been seen.
pub open spec fn seen(s: LayoutState, name: Seq<char>, file: Seq<char>) -> LayoutState {
    let t = facts_of_name(name, file);
    let layer = util::number_after(name, "layers."@);
    let expert = util::number_after(name, "experts."@);
    match t.kind {
        ExpertTensorKind::Router => match layer {
            Some(l) => LayoutState { routers: s.routers.insert(l, t), ..s },
            None => as_unknown(s, name, file),
        },
        ExpertTensorKind::Gate
        | ExpertTensorKind::Up
        | ExpertTensorKind::GateUp
        | ExpertTensorKind::Down => if names_shared(name) {
            with_shared(s, "shared tensor missing layer index: "@, t)
        } else {
            match (layer, expert) {
                (Some(l), Some(e)) => {
                    let key = ExpertKey { layer: l, expert: e };
                    LayoutState {
                        experts: s.experts.insert(
                            key,
                            with_file(with_tensor(slots_at(s.experts, key), t), file),
                        ),
                        ..s
                    }
                },
                _ => warned(s, "expert tensor missing layer or expert index: "@, name),
            }
        },
        ExpertTensorKind::PackedGateUp | ExpertTensorKind::PackedDown => {
            let now = LayoutState { saw_packed: true, ..s };
            match layer {
                Some(l) => LayoutState {
                    packed: s.packed.insert(
                        l,
                        with_file(with_packed(slots_at(s.packed, l), t), file),
                    ),
                    ..now
                },
                None => warned(now, "packed expert tensor missing layer index: "@, name),
            }
        },
        ExpertTensorKind::Shared => if names_shared(name) {
            with_shared(s, "shared gate tensor missing layer index: "@, t)
        } else {
            as_unknown(s, name, file)
        },
        ExpertTensorKind::Unknown => as_unknown(s, name, file),
    }
}

/// What is known once all tensors have been seen.
pub open spec fn all_seen(tensors: Seq<(String, String)>) -> LayoutState
    decreases tensors.len(),
{
    if tensors.len() == 0 {
        nothing()
    } else {
        seen(all_seen(tensors.drop_last()), tensors.last().0@, tensors.last().1@)
    }
}

// ---------------------------------------------------------------------------
// Entries as values
// ---------------------------------------------------------------------------

/// The tensors of a routed expert's entry.
pub open spec fn routed_slots(e: ExpertEntry) -> Slots {
    Slots {
        gate: opt_facts(e.gate),
        up: opt_facts(e.up),
        gate_up: opt_facts(e.gate_up),
        down: opt_facts(e.down),
        shared_gate: None,
        files: text::views(e.source_files@).to_set(),
    }
}

/// The tensors of a packed layer's entry.
pub open spec fn packed_slots(e: PackedExpertLayerEntry) -> Slots {
    Slots {
        gate: None,
        up: None,
        gate_up: opt_facts(e.gate_up),
        down: opt_facts(e.down),
        shared_gate: None,
        files: text::views(e.source_files@).to_set(),
    }
}

/// The tensors of a shared expert's entry.
pub open spec fn shared_slots(e: SharedExpertEntry) -> Slots {
    Slots {
        gate: opt_facts(e.gate),
        up: opt_facts(e.up),
        gate_up: opt_facts(e.gate_up),
        down: opt_facts(e.down),
        shared_gate: opt_facts(e.shared_gate),
        files: Set::empty(),
    }
}

/// The routed experts by key.
pub open spec fn routed_pairs(es: Seq<ExpertEntry>) -> Seq<(ExpertKey, Slots)> {
    es.map_values(
        |e: ExpertEntry| (ExpertKey { layer: e.layer, expert: e.expert }, routed_slots(e)),
    )
}

/// The packed layers by layer.
pub open spec fn packed_pairs(es: Seq<PackedExpertLayerEntry>) -> Seq<(u32, Slots)> {
    es.map_values(|e: PackedExpertLayerEntry| (e.layer, packed_slots(e)))
}

/// The shared experts by layer.
pub open spec fn shared_pairs(es: Seq<SharedExpertEntry>) -> Seq<(u32, Slots)> {
    es.map_values(|e: SharedExpertEntry| (e.layer, shared_slots(e)))
}

/// The routers by layer.
pub open spec fn router_pairs(es: Seq<RouterEntry>) -> Seq<(u32, TensorFacts)> {
    es.map_values(|e: RouterEntry| (e.layer, facts(e.tensor)))
}

/// A number that orders experts by layer, and within a layer by expert.
pub open spec fn expert_code(layer: u32, expert: u32) -> u128 {
    (layer * 0x1_0000_0000 + expert) as u128
}

/// The unknown tensors.
pub open spec fn unknown_pairs(us: Seq<UnknownTensorEntry>) -> Seq<(Seq<char>, Seq<char>)> {
    us.map_values(|u: UnknownTensorEntry| (u.tensor_name@, u.source_file@))
}

// ---------------------------------------------------------------------------
// Building
// ---------------------------------------------------------------------------

/// A layout in the making. Each list of codes orders the entries beside it.
pub struct LayoutBuilder {
    pub expert_codes: Vec<u128>,
    pub experts: Vec<ExpertEntry>,
    pub packed_codes: Vec<u128>,
    pub packed: Vec<PackedExpertLayerEntry>,
    pub shared_codes: Vec<u128>,
    pub shared: Vec<SharedExpertEntry>,
    pub router_codes: Vec<u128>,
    pub routers: Vec<RouterEntry>,
    pub unknown: Vec<UnknownTensorEntry>,
    pub warnings: Vec<String>,
    pub saw_packed: bool,
    pub experts_per_layer: u32,
}

/// The codes are those of the routed experts, and they ascend.
pub open spec fn routed_wf(codes: Seq<u128>, es: Seq<ExpertEntry>) -> bool {
    &&& codes.len() == es.len()
    &&& keyed::ascending(codes)
    &&& forall|i: int|
        0 <= i < es.len() ==> #[trigger] codes[i] == expert_code(es[i].layer, es[i].expert)
    &&& forall|i: int|
        0 <= i < es.len() ==> text::ascending_texts(
            text::views((#[trigger] es[i]).source_files@),
        ) && !es[i].complete
}

/// The codes are the layers of the packed experts, and they ascend.
pub open spec fn packed_wf(codes: Seq<u128>, es: Seq<PackedExpertLayerEntry>, per_layer: u32) -> bool {
    &&& codes.len() == es.len()
    &&& keyed::ascending(codes)
    &&& forall|i: int| 0 <= i < es.len() ==> #[trigger] codes[i] == es[i].layer
    &&& forall|i: int|
        0 <= i < es.len() ==> text::ascending_texts(
            text::views((#[trigger] es[i]).source_files@),
        ) && !es[i].complete && es[i].num_experts_per_layer == per_layer
}

/// The codes are the layers of the shared experts, and they ascend.
pub open spec fn shared_wf(codes: Seq<u128>, es: Seq<SharedExpertEntry>) -> bool {
    &&& codes.len() == es.len()
    &&& keyed::ascending(codes)
    &&& forall|i: int| 0 <= i < es.len() ==> #[trigger] codes[i] == es[i].layer
}

/// The codes are the layers of the routers, and they ascend.
pub open spec fn router_wf(codes: Seq<u128>, es: Seq<RouterEntry>) -> bool {
    &&& codes.len() == es.len()
    &&& keyed::ascending(codes)
    &&& forall|i: int| 0 <= i < es.len() ==> #[trigger] codes[i] == es[i].layer
}

impl LayoutBuilder {
    /// All lists are in order.
    pub open spec fn wf(self) -> bool {
        &&& routed_wf(self.expert_codes@, self.experts@)
        &&& packed_wf(self.packed_codes@, self.packed@, self.experts_per_layer)
        &&& shared_wf(self.shared_codes@, self.shared@)
        &&& router_wf(self.router_codes@, self.routers@)
    }
}

impl View for LayoutBuilder {
    type V = LayoutState;

    open spec fn view(&self) -> LayoutState {
        LayoutState {
            experts: keyed::map_of(routed_pairs(self.experts@)),
            packed: keyed::map_of(packed_pairs(self.packed@)),
            shared: keyed::map_of(shared_pairs(self.shared@)),
            routers: keyed::map_of(router_pairs(self.routers@)),
            unknown: unknown_pairs(self.unknown@),
            warnings: text::views(self.warnings@),
            saw_packed: self.saw_packed,
        }
    }
}

/// The code of an expert tells its layer and number.
proof fn lemma_code_is_injective(a: ExpertKey, b: ExpertKey)
    requires
        expert_code(a.layer, a.expert) == expert_code(b.layer, b.expert),
    ensures
        a == b,
{
}

/// Places a tensor in a routed expert's entry. A shared expert's own gate has no
/// place there.
pub fn assign_routed_tensor(entry: &mut ExpertEntry, tref: TensorRef)
    ensures
        routed_slots(*final(entry)) == if tref.tensor_kind == ExpertTensorKind::Shared {
            routed_slots(*old(entry))
        } else {
            with_tensor(routed_slots(*old(entry)), facts(tref))
        },
        final(entry).gate == if tref.tensor_kind == ExpertTensorKind::Gate {
            Some(tref)
        } else {
            old(entry).gate
        },
        final(entry).up == if tref.tensor_kind == ExpertTensorKind::Up {
            Some(tref)
        } else {
            old(entry).up
        },
        final(entry).gate_up == if tref.tensor_kind == ExpertTensorKind::GateUp {
            Some(tref)
        } else {
            old(entry).gate_up
        },
        final(entry).down == if tref.tensor_kind == ExpertTensorKind::Down {
            Some(tref)
        } else {
            old(entry).down
        },
        final(entry).layer == old(entry).layer,
        final(entry).expert == old(entry).expert,
        final(entry).source_files == old(entry).source_files,
        final(entry).complete == old(entry).complete,
{
    match tref.tensor_kind {
        ExpertTensorKind::Gate => {
            entry.gate = Some(tref);
        },
        ExpertTensorKind::Up => {
            entry.up = Some(tref);
        },
        ExpertTensorKind::GateUp => {
            entry.gate_up = Some(tref);
        },
        ExpertTensorKind::Down => {
            entry.down = Some(tref);
        },
        _ => {},
    }
}

/// Places a tensor in a shared expert's entry.
pub fn assign_shared_tensor(entry: &mut SharedExpertEntry, tref: TensorRef)
    ensures
        shared_slots(*final(entry)) == with_tensor(shared_slots(*old(entry)), facts(tref)),
        final(entry).layer == old(entry).layer,
        final(entry).gate == if tref.tensor_kind == ExpertTensorKind::Gate {
            Some(tref)
        } else {
            old(entry).gate
        },
        final(entry).up == if tref.tensor_kind == ExpertTensorKind::Up {
            Some(tref)
        } else {
            old(entry).up
        },
        final(entry).gate_up == if tref.tensor_kind == ExpertTensorKind::GateUp {
            Some(tref)
        } else {
            old(entry).gate_up
        },
        final(entry).down == if tref.tensor_kind == ExpertTensorKind::Down {
            Some(tref)
        } else {
            old(entry).down
        },
        final(entry).shared_gate == if tref.tensor_kind == ExpertTensorKind::Shared {
            Some(tref)
        } else {
            old(entry).shared_gate
        },
{
    match tref.tensor_kind {
        ExpertTensorKind::Gate => {
            entry.gate = Some(tref);
        },
        ExpertTensorKind::Up => {
            entry.up = Some(tref);
        },
        ExpertTensorKind::GateUp => {
            entry.gate_up = Some(tref);
        },
        ExpertTensorKind::Down => {
            entry.down = Some(tref);
        },
        ExpertTensorKind::Shared => {
            entry.shared_gate = Some(tref);
        },
        _ => {},
    }
}

/// Places a tensor in a packed layer's entry.
fn assign_packed_tensor(entry: &mut PackedExpertLayerEntry, tref: TensorRef)
    ensures
        packed_slots(*final(entry)) == with_packed(packed_slots(*old(entry)), facts(tref)),
        final(entry).layer == old(entry).layer,
        final(entry).num_experts_per_layer == old(entry).num_experts_per_layer,
        final(entry).source_files == old(entry).source_files,
        final(entry).complete == old(entry).complete,
{
    match tref.tensor_kind {
        ExpertTensorKind::PackedGateUp => {
            entry.gate_up = Some(tref);
        },
        ExpertTensorKind::PackedDown => {
            entry.down = Some(tref);
        },
        _ => {},
    }
}

fn tensor_ref(p: &ParsedTensorName) -> (t: TensorRef)
    requires
        p.tensor_kind == kind_of(p.tensor_name@),
    ensures
        facts(t) == facts_of_name(p.tensor_name@, p.source_file@),
{
    TensorRef {
        tensor_kind: p.tensor_kind,
        tensor_name: p.tensor_name.clone(),
        source_file: p.source_file.clone(),
        shape: None,
        dtype: None,
        byte_offset: None,
        byte_len: None,
    }
}

impl LayoutBuilder {
    /// A layout of which nothing is known.
    pub fn new(experts_per_layer: u32) -> (b: LayoutBuilder)
        ensures
            b.wf(),
            b@ == nothing(),
            b.experts_per_layer == experts_per_layer,
    {
        let b = LayoutBuilder {
            expert_codes: Vec::new(),
            experts: Vec::new(),
            packed_codes: Vec::new(),
            packed: Vec::new(),
            shared_codes: Vec::new(),
            shared: Vec::new(),
            router_codes: Vec::new(),
            routers: Vec::new(),
            unknown: Vec::new(),
            warnings: Vec::new(),
            saw_packed: false,
            experts_per_layer,
        };
        proof {
            assert(b@.experts == Map::<ExpertKey, Slots>::empty());
            assert(b@.packed == Map::<u32, Slots>::empty());
            assert(b@.shared == Map::<u32, Slots>::empty());
            assert(b@.routers == Map::<u32, TensorFacts>::empty());
            assert(b@ == nothing());
        }
        b
    }

    fn add_unknown(&mut self, p: ParsedTensorName)
        requires
            old(self).wf(),
        ensures
            final(self).wf(),
            final(self)@ == as_unknown(old(self)@, p.tensor_name@, p.source_file@),
            final(self).experts_per_layer == old(self).experts_per_layer,
    {
        let ghost was = self.unknown@;
        self.unknown.push(
            UnknownTensorEntry { tensor_name: p.tensor_name, source_file: p.source_file },
        );
        assert(unknown_pairs(self.unknown@) == unknown_pairs(was).push(
            (p.tensor_name@, p.source_file@),
        ));
    }

    fn warn(&mut self, what: &str, name: &str)
        requires
            old(self).wf(),
        ensures
            final(self).wf(),
            final(self)@ == warned(old(self)@, what@, name@),
            final(self).experts_per_layer == old(self).experts_per_layer,
    {
        let mut m = what.to_owned();
        m.append(name);
        let ghost was = self.warnings@;
        self.warnings.push(m);
        assert(text::views(self.warnings@) == text::views(was).push(what@ + name@));
    }

    fn add_router(&mut self, layer: u32, tensor: TensorRef)
        requires
            old(self).wf(),
        ensures
            final(self).wf(),
            final(self)@ == (LayoutState {
                routers: old(self)@.routers.insert(layer, facts(tensor)),
                ..old(self)@
            }),
            final(self).experts_per_layer == old(self).experts_per_layer,
    {
        let ghost codes = self.router_codes@;
        let ghost was = self.routers@;
        let ghost code = |k: u32| k as u128;
        let (at, found) = keyed::find_code(self.router_codes.as_slice(), layer as u128);
        let ghost value = facts(tensor);
        proof {
            keyed::codes_are_unique(codes, router_pairs(was), code);
        }
        let entry = RouterEntry { layer, tensor };
        if found {
            self.routers.set(at, entry);
            proof {
                keyed::update_item(router_pairs(was), at as int, value);
                assert(router_pairs(self.routers@) == router_pairs(was).update(
                    at as int,
                    (layer, value),
                ));
            }
        } else {
            self.router_codes.insert(at, layer as u128);
            self.routers.insert(at, entry);
            proof {
                keyed::code_is_absent(codes, router_pairs(was), code, layer);
                keyed::insert_item(router_pairs(was), at as int, layer, value);
                keyed::insert_code(codes, at as int, layer as u128);
                assert(router_pairs(self.routers@) == router_pairs(was).insert(
                    at as int,
                    (layer, value),
                ));
                assert forall|i: int|
                    0 <= i < self.routers@.len() implies #[trigger] self.router_codes@[i]
                    == self.routers@[i].layer by {
                    if i > at {
                        assert(codes[i - 1] == was[i - 1].layer);
                    } else if i < at {
                        assert(codes[i] == was[i].layer);
                    }
                }
            }
        }
    }

    fn add_shared(&mut self, layer: u32, tensor: TensorRef)
        requires
            old(self).wf(),
        ensures
            final(self).wf(),
            final(self)@ == (LayoutState {
                shared: old(self)@.shared.insert(
                    layer,
                    with_tensor(slots_at(old(self)@.shared, layer), facts(tensor)),
                ),
                ..old(self)@
            }),
            final(self).experts_per_layer == old(self).experts_per_layer,
    {
        let ghost codes = self.shared_codes@;
        let ghost was = self.shared@;
        let ghost code = |k: u32| k as u128;
        let (at, found) = keyed::find_code(self.shared_codes.as_slice(), layer as u128);
        let ghost t = facts(tensor);
        proof {
            keyed::codes_are_unique(codes, shared_pairs(was), code);
        }
        if found {
            proof {
                keyed::item_is_found(shared_pairs(was), at as int);
                keyed::update_item(
                    shared_pairs(was),
                    at as int,
                    with_tensor(shared_slots(was[at as int]), t),
                );
            }
            assign_shared_tensor(&mut self.shared[at], tensor);
            proof {
                assert(shared_pairs(self.shared@) == shared_pairs(was).update(
                    at as int,
                    (layer, with_tensor(shared_slots(was[at as int]), t)),
                ));
            }
        } else {
            let mut entry = SharedExpertEntry {
                layer,
                gate: None,
                up: None,
                gate_up: None,
                down: None,
                shared_gate: None,
            };
            assert(shared_slots(entry) == no_slots());
            assign_shared_tensor(&mut entry, tensor);
            self.shared_codes.insert(at, layer as u128);
            self.shared.insert(at, entry);
            proof {
                keyed::code_is_absent(codes, shared_pairs(was), code, layer);
                keyed::insert_item(
                    shared_pairs(was),
                    at as int,
                    layer,
                    with_tensor(no_slots(), t),
                );
                keyed::insert_code(codes, at as int, layer as u128);
                assert(shared_pairs(self.shared@) == shared_pairs(was).insert(
                    at as int,
                    (layer, with_tensor(no_slots(), t)),
                ));
                assert forall|i: int|
                    0 <= i < self.shared@.len() implies #[trigger] self.shared_codes@[i]
                    == self.shared@[i].layer by {
                    if i > at {
                        assert(codes[i - 1] == was[i - 1].layer);
                    } else if i < at {
                        assert(codes[i] == was[i].layer);
                    }
                }
            }
        }
    }

    fn add_routed(&mut self, layer: u32, expert: u32, tensor: TensorRef)
        requires
            old(self).wf(),
            tensor.tensor_kind != ExpertTensorKind::Shared,
        ensures
            final(self).wf(),
            ({
                let key = ExpertKey { layer, expert };
                final(self)@ == (LayoutState {
                    experts: old(self)@.experts.insert(
                        key,
                        with_file(
                            with_tensor(slots_at(old(self)@.experts, key), facts(tensor)),
                            tensor.source_file@,
                        ),
                    ),
                    ..old(self)@
                })
            }),
            final(self).experts_per_layer == old(self).experts_per_layer,
    {
        let ghost codes = self.expert_codes@;
        let ghost was = self.experts@;
        let ghost key = ExpertKey { layer, expert };
        let ghost code = |k: ExpertKey| expert_code(k.layer, k.expert);
        let c: u128 = layer as u128 * 0x1_0000_0000 + expert as u128;
        let (at, found) = keyed::find_code(self.expert_codes.as_slice(), c);
        let ghost t = facts(tensor);
        proof {
            assert forall|i: int| 0 <= i < was.len() implies #[trigger] codes[i] == code(
                routed_pairs(was)[i].0,
            ) by {}
            keyed::codes_are_unique(codes, routed_pairs(was), code);
        }
        if found {
            let ghost now = with_file(
                with_tensor(routed_slots(was[at as int]), t),
                tensor.source_file@,
            );
            proof {
                lemma_code_is_injective(routed_pairs(was)[at as int].0, key);
                keyed::item_is_found(routed_pairs(was), at as int);
                keyed::update_item(routed_pairs(was), at as int, now);
            }
            let entry = &mut self.experts[at];
            text::insert_text(&mut entry.source_files, tensor.source_file.as_str());
            assign_routed_tensor(entry, tensor);
            proof {
                assert(routed_slots(self.experts@[at as int]) == now);
                assert(routed_pairs(self.experts@) == routed_pairs(was).update(
                    at as int,
                    (key, now),
                ));
                assert(self@.experts == old(self)@.experts.insert(key, now));
            }
        } else {
            let mut entry = ExpertEntry {
                layer,
                expert,
                gate: None,
                up: None,
                gate_up: None,
                down: None,
                source_files: Vec::new(),
                complete: false,
            };
            assert(routed_slots(entry) == no_slots());
            let ghost now = with_file(with_tensor(no_slots(), t), tensor.source_file@);
            text::insert_text(&mut entry.source_files, tensor.source_file.as_str());
            assign_routed_tensor(&mut entry, tensor);
            assert(routed_slots(entry) == now);
            self.expert_codes.insert(at, c);
            self.experts.insert(at, entry);
            proof {
                keyed::code_is_absent(codes, routed_pairs(was), code, key);
                keyed::insert_item(routed_pairs(was), at as int, key, now);
                keyed::insert_code(codes, at as int, c);
                assert(routed_pairs(self.experts@) == routed_pairs(was).insert(
                    at as int,
                    (key, now),
                ));
                assert forall|i: int|
                    0 <= i < self.experts@.len() implies #[trigger] self.expert_codes@[i]
                    == expert_code(self.experts@[i].layer, self.experts@[i].expert) by {
                    if i > at {
                        assert(codes[i - 1] == expert_code(was[i - 1].layer, was[i - 1].expert));
                    } else if i < at {
                        assert(codes[i] == expert_code(was[i].layer, was[i].expert));
                    }
                }
                assert forall|i: int| 0 <= i < self.experts@.len() implies text::ascending_texts(
                    text::views((#[trigger] self.experts@[i]).source_files@),
                ) && !self.experts@[i].complete by {
                    if i > at {
                        assert(self.experts@[i] == was[i - 1]);
                    } else if i < at {
                        assert(self.experts@[i] == was[i]);
                    }
                }
                assert(self@.experts == old(self)@.experts.insert(key, now));
            }
        }
    }

    fn add_packed(&mut self, layer: u32, tensor: TensorRef)
        requires
            old(self).wf(),
        ensures
            final(self).wf(),
            final(self)@ == (LayoutState {
                packed: old(self)@.packed.insert(
                    layer,
                    with_file(
                        with_packed(slots_at(old(self)@.packed, layer), facts(tensor)),
                        tensor.source_file@,
                    ),
                ),
                ..old(self)@
            }),
            final(self).experts_per_layer == old(self).experts_per_layer,
    {
        let ghost codes = self.packed_codes@;
        let ghost was = self.packed@;
        let ghost code = |k: u32| k as u128;
        let (at, found) = keyed::find_code(self.packed_codes.as_slice(), layer as u128);
        let ghost t = facts(tensor);
        proof {
            keyed::codes_are_unique(codes, packed_pairs(was), code);
        }
        if found {
            let ghost now = with_file(
                with_packed(packed_slots(was[at as int]), t),
                tensor.source_file@,
            );
            proof {
                keyed::item_is_found(packed_pairs(was), at as int);
                keyed::update_item(packed_pairs(was), at as int, now);
            }
            let entry = &mut self.packed[at];
            text::insert_text(&mut entry.source_files, tensor.source_file.as_str());
            assign_packed_tensor(entry, tensor);
            proof {
                assert(packed_slots(self.packed@[at as int]) == now);
                assert(packed_pairs(self.packed@) == packed_pairs(was).update(
                    at as int,
                    (layer, now),
                ));
                assert(self@.packed == old(self)@.packed.insert(layer, now));
            }
        } else {
            let mut entry = PackedExpertLayerEntry {
                layer,
                num_experts_per_layer: self.experts_per_layer,
                gate_up: None,
                down: None,
                source_files: Vec::new(),
                complete: false,
            };
            assert(packed_slots(entry) == no_slots());
            let ghost now = with_file(with_packed(no_slots(), t), tensor.source_file@);
            text::insert_text(&mut entry.source_files, tensor.source_file.as_str());
            assign_packed_tensor(&mut entry, tensor);
            assert(packed_slots(entry) == now);
            self.packed_codes.insert(at, layer as u128);
            self.packed.insert(at, entry);
            proof {
                keyed::code_is_absent(codes, packed_pairs(was), code, layer);
                keyed::insert_item(packed_pairs(was), at as int, layer, now);
                keyed::insert_code(codes, at as int, layer as u128);
                assert(packed_pairs(self.packed@) == packed_pairs(was).insert(
                    at as int,
                    (layer, now),
                ));
                assert forall|i: int|
                    0 <= i < self.packed@.len() implies #[trigger] self.packed_codes@[i]
                    == self.packed@[i].layer by {
                    if i > at {
                        assert(codes[i - 1] == was[i - 1].layer);
                    } else if i < at {
                        assert(codes[i] == was[i].layer);
                    }
                }
                assert forall|i: int| 0 <= i < self.packed@.len() implies text::ascending_texts(
                    text::views((#[trigger] self.packed@[i]).source_files@),
                ) && !self.packed@[i].complete && self.packed@[i].num_experts_per_layer
                    == self.experts_per_layer by {
                    if i > at {
                        assert(self.packed@[i] == was[i - 1]);
                    } else if i < at {
                        assert(self.packed@[i] == was[i]);
                    }
                }
                assert(self@.packed == old(self)@.packed.insert(layer, now));
            }
        }
    }

    /// Takes note of a tensor.
    pub fn see(&mut self, tensor_name: &str, source_file: &str)
        requires
            old(self).wf(),
        ensures
            final(self).wf(),
            final(self)@ == seen(old(self)@, tensor_name@, source_file@),
            final(self).experts_per_layer == old(self).experts_per_layer,
    {
        let p = parse_qwen_tensor_name(tensor_name, source_file);
        let tref = tensor_ref(&p);
        match p.tensor_kind {
            ExpertTensorKind::Router => match p.layer_idx {
                Some(layer) => self.add_router(layer, tref),
                None => self.add_unknown(p),
            },
            ExpertTensorKind::Gate
            | ExpertTensorKind::Up
            | ExpertTensorKind::GateUp
            | ExpertTensorKind::Down => {
                if p.is_shared {
                    match p.layer_idx {
                        Some(layer) => self.add_shared(layer, tref),
                        None => self.warn("shared tensor missing layer index: ", tensor_name),
                    }
                } else {
                    match (p.layer_idx, p.expert_id) {
                        (Some(layer), Some(expert)) => self.add_routed(layer, expert, tref),
                        _ => self.warn(
                            "expert tensor missing layer or expert index: ",
                            tensor_name,
                        ),
                    }
                }
            },
            ExpertTensorKind::PackedGateUp | ExpertTensorKind::PackedDown => {
                self.saw_packed = true;
                match p.layer_idx {
                    Some(layer) => self.add_packed(layer, tref),
                    None => self.warn("packed expert tensor missing layer index: ", tensor_name),
                }
            },
            ExpertTensorKind::Shared => {
                if p.is_shared {
                    match p.layer_idx {
                        Some(layer) => self.add_shared(layer, tref),
                        None => self.warn("shared gate tensor missing layer index: ", tensor_name),
                    }
                } else {
                    self.add_unknown(p);
                }
            },
            ExpertTensorKind::Unknown => self.add_unknown(p),
        }
    }
}

// ---------------------------------------------------------------------------
// Finishing
// ---------------------------------------------------------------------------

/// `true` or `false`.
pub open spec fn bool_text(b: bool) -> Seq<char> {
    if b {
        "true"@
    } else {
        "false"@
    }
}

fn bool_str(b: bool) -> (s: &'static str)
    ensures
        s@ == bool_text(b),
{
    if b {
        "true"
    } else {
        "false"
    }
}

/// Which projections an incomplete expert has.
pub open spec fn slots_text(s: Slots) -> Seq<char> {
    " gate="@ + bool_text(s.gate is Some) + " up="@ + bool_text(s.up is Some) + " gate_up="@
        + bool_text(s.gate_up is Some) + " down="@ + bool_text(s.down is Some)
}

/// The warnings about incomplete routed experts.
pub open spec fn routed_warnings(es: Seq<ExpertEntry>) -> Seq<Seq<char>>
    decreases es.len(),
{
    if es.len() == 0 {
        Seq::empty()
    } else {
        let front = routed_warnings(es.drop_last());
        let e = es.last();
        if is_complete(routed_slots(e)) {
            front
        } else {
            front.push(
                "incomplete routed expert layer="@ + text::decimal(e.layer as nat) + " expert="@
                    + text::decimal(e.expert as nat) + slots_text(routed_slots(e)),
            )
        }
    }
}

/// The warnings about incomplete packed layers.
pub open spec fn packed_warnings(es: Seq<PackedExpertLayerEntry>) -> Seq<Seq<char>>
    decreases es.len(),
{
    if es.len() == 0 {
        Seq::empty()
    } else {
        let front = packed_warnings(es.drop_last());
        let e = es.last();
        if is_packed_complete(packed_slots(e)) {
            front
        } else {
            front.push(
                "incomplete packed expert layer="@ + text::decimal(e.layer as nat) + " gate_up="@
                    + bool_text(e.gate_up is Some) + " down="@ + bool_text(e.down is Some),
            )
        }
    }
}

/// The warnings about incomplete shared experts.
pub open spec fn shared_warnings(es: Seq<SharedExpertEntry>) -> Seq<Seq<char>>
    decreases es.len(),
{
    if es.len() == 0 {
        Seq::empty()
    } else {
        let front = shared_warnings(es.drop_last());
        let e = es.last();
        if is_complete(shared_slots(e)) {
            front
        } else {
            front.push(
                "incomplete shared expert layer="@ + text::decimal(e.layer as nat) + slots_text(
                    shared_slots(e),
                ),
            )
        }
    }
}

fn push_slots(m: &mut String, gate: bool, up: bool, gate_up: bool, down: bool)
    ensures
        final(m)@ == old(m)@ + (" gate="@ + bool_text(gate) + " up="@ + bool_text(up)
            + " gate_up="@ + bool_text(gate_up) + " down="@ + bool_text(down)),
{
    let mut t = " gate=".to_owned();
    t.append(bool_str(gate));
    t.append(" up=");
    t.append(bool_str(up));
    t.append(" gate_up=");
    t.append(bool_str(gate_up));
    t.append(" down=");
    t.append(bool_str(down));
    m.append(t.as_str());
}

fn push_text(list: &mut Vec<String>, t: String)
    ensures
        text::views(final(list)@) == text::views(old(list)@).push(t@),
{
    let ghost was = list@;
    list.push(t);
    assert(text::views(list@) == text::views(was).push(t@));
}

/// The entry is the same but for the mark that it is complete.
spec fn same_routed(a: ExpertEntry, b: ExpertEntry) -> bool {
    a == (ExpertEntry { complete: a.complete, ..b })
}

fn complete_routed(es: &mut Vec<ExpertEntry>, warnings: &mut Vec<String>)
    ensures
        final(es)@.len() == old(es)@.len(),
        forall|i: int|
            0 <= i < final(es)@.len() ==> same_routed(#[trigger] final(es)@[i], old(es)@[i])
                && final(es)@[i].complete == is_complete(routed_slots(final(es)@[i])),
        text::views(final(warnings)@) == text::views(old(warnings)@) + routed_warnings(final(es)@),
{
    let ghost was = es@;
    let ghost before = text::views(warnings@);
    let mut i: usize = 0;
    assert(es@.take(0) == Seq::<ExpertEntry>::empty());
    assert(before + Seq::<Seq<char>>::empty() == before);
    while i < es.len()
        invariant
            i <= es@.len(),
            es@.len() == was.len(),
            forall|j: int|
                0 <= j < i ==> same_routed(#[trigger] es@[j], was[j]) && es@[j].complete
                    == is_complete(routed_slots(es@[j])),
            forall|j: int| i <= j < es@.len() ==> #[trigger] es@[j] == was[j],
            text::views(warnings@) == before + routed_warnings(es@.take(i as int)),
        decreases es@.len() - i,
    {
        let ghost here = es@;
        let e = &mut es[i];
        let (gate, up, gate_up, down) = (
            e.gate.is_some(),
            e.up.is_some(),
            e.gate_up.is_some(),
            e.down.is_some(),
        );
        let complete = if gate_up {
            down
        } else {
            gate && up && down
        };
        e.complete = complete;
        let (layer, expert) = (e.layer, e.expert);
        proof {
            assert(es@.take(i + 1).drop_last() == here.take(i as int));
            assert(es@.take(i + 1).last() == es@[i as int]);
            assert(same_routed(es@[i as int], was[i as int]));
            assert(routed_slots(es@[i as int]) == routed_slots(was[i as int]));
        }
        let ghost said = routed_warnings(here.take(i as int));
        if !complete {
            let mut m = "incomplete routed expert layer=".to_owned();
            text::push_decimal(&mut m, layer as u64);
            m.append(" expert=");
            text::push_decimal(&mut m, expert as u64);
            push_slots(&mut m, gate, up, gate_up, down);
            let ghost text = m@;
            push_text(warnings, m);
            assert((before + said).push(text) == before + said.push(text));
        }
        i = i + 1;
    }
    assert(es@.take(i as int) == es@);
}

/// The entry is the same but for the mark that it is complete.
spec fn same_packed(a: PackedExpertLayerEntry, b: PackedExpertLayerEntry) -> bool {
    a == (PackedExpertLayerEntry { complete: a.complete, ..b })
}

fn complete_packed(es: &mut Vec<PackedExpertLayerEntry>, warnings: &mut Vec<String>)
    ensures
        final(es)@.len() == old(es)@.len(),
        forall|i: int|
            0 <= i < final(es)@.len() ==> same_packed(#[trigger] final(es)@[i], old(es)@[i])
                && final(es)@[i].complete == is_packed_complete(packed_slots(final(es)@[i])),
        text::views(final(warnings)@) == text::views(old(warnings)@) + packed_warnings(final(es)@),
{
    let ghost was = es@;
    let ghost before = text::views(warnings@);
    let mut i: usize = 0;
    assert(es@.take(0) == Seq::<PackedExpertLayerEntry>::empty());
    assert(before + Seq::<Seq<char>>::empty() == before);
    while i < es.len()
        invariant
            i <= es@.len(),
            es@.len() == was.len(),
            forall|j: int|
                0 <= j < i ==> same_packed(#[trigger] es@[j], was[j]) && es@[j].complete
                    == is_packed_complete(packed_slots(es@[j])),
            forall|j: int| i <= j < es@.len() ==> #[trigger] es@[j] == was[j],
            text::views(warnings@) == before + packed_warnings(es@.take(i as int)),
        decreases es@.len() - i,
    {
        let ghost here = es@;
        let e = &mut es[i];
        let (gate_up, down) = (e.gate_up.is_some(), e.down.is_some());
        e.complete = gate_up && down;
        let layer: u32 = e.layer;
        proof {
            assert(es@.take(i + 1).drop_last() == here.take(i as int));
            assert(es@.take(i + 1).last() == es@[i as int]);
            assert(same_packed(es@[i as int], was[i as int]));
            assert(packed_slots(es@[i as int]) == packed_slots(was[i as int]));
        }
        let ghost said = packed_warnings(here.take(i as int));
        if !(gate_up && down) {
            let mut m = "incomplete packed expert layer=".to_owned();
            text::push_decimal(&mut m, layer as u64);
            m.append(" gate_up=");
            m.append(bool_str(gate_up));
            m.append(" down=");
            m.append(bool_str(down));
            let ghost text = m@;
            push_text(warnings, m);
            assert((before + said).push(text) == before + said.push(text));
        }
        i = i + 1;
    }
    assert(es@.take(i as int) == es@);
}

fn warn_shared(es: &Vec<SharedExpertEntry>, warnings: &mut Vec<String>)
    ensures
        text::views(final(warnings)@) == text::views(old(warnings)@) + shared_warnings(es@),
{
    let ghost before = text::views(warnings@);
    let mut i: usize = 0;
    assert(es@.take(0) == Seq::<SharedExpertEntry>::empty());
    assert(before + Seq::<Seq<char>>::empty() == before);
    while i < es.len()
        invariant
            i <= es@.len(),
            text::views(warnings@) == before + shared_warnings(es@.take(i as int)),
        decreases es@.len() - i,
    {
        let e = &es[i];
        let (gate, up, gate_up, down) = (
            e.gate.is_some(),
            e.up.is_some(),
            e.gate_up.is_some(),
            e.down.is_some(),
        );
        let complete = if gate_up {
            down
        } else {
            gate && up && down
        };
        assert(es@.take(i + 1).drop_last() == es@.take(i as int));
        let ghost said = shared_warnings(es@.take(i as int));
        if !complete {
            let mut m = "incomplete shared expert layer=".to_owned();
            text::push_decimal(&mut m, e.layer as u64);
            push_slots(&mut m, gate, up, gate_up, down);
            let ghost text = m@;
            push_text(warnings, m);
            assert((before + said).push(text) == before + said.push(text));
        }
        i = i + 1;
    }
    assert(es@.take(i as int) == es@);
}

/// The routed experts are listed by layer, and within a layer by expert.
pub open spec fn experts_in_order(es: Seq<ExpertEntry>) -> bool {
    forall|i: int, j: int|
        0 <= i < j < es.len() ==> expert_code((#[trigger] es[i]).layer, es[i].expert) < expert_code(
            (#[trigger] es[j]).layer,
            es[j].expert,
        )
}

/// Each routed expert lists its files in order, once each, and says whether it is
/// complete.
pub open spec fn experts_finished(es: Seq<ExpertEntry>) -> bool {
    forall|i: int|
        0 <= i < es.len() ==> text::ascending_texts(
            text::views((#[trigger] es[i]).source_files@),
        ) && es[i].complete == is_complete(routed_slots(es[i]))
}

/// The packed layers are listed in order; each lists its files in order, once
/// each, and says whether it is complete.
pub open spec fn packed_finished(es: Seq<PackedExpertLayerEntry>, per_layer: u32) -> bool {
    &&& forall|i: int, j: int|
        0 <= i < j < es.len() ==> (#[trigger] es[i]).layer < (#[trigger] es[j]).layer
    &&& forall|i: int|
        0 <= i < es.len() ==> text::ascending_texts(
            text::views((#[trigger] es[i]).source_files@),
        ) && es[i].complete == is_packed_complete(packed_slots(es[i]))
            && es[i].num_experts_per_layer == per_layer
}

/// How many routed experts the model has: those of the configuration, where there
/// are experts and the configuration counts them, else those that were seen.
pub open spec fn logical_count(packed: bool, seen: nat, layers: u32, experts: u32) -> nat {
    if packed || (seen > 0 && layers > 0 && experts > 0) {
        (layers * experts) as nat
    } else {
        seen
    }
}

/// The number, or zero.
pub open spec fn or_zero(n: Option<u32>) -> u32 {
    match n {
        Some(v) => v,
        None => 0,
    }
}

fn unwrap_or_zero(n: Option<u32>) -> (v: u32)
    ensures
        v == or_zero(n),
{
    match n {
        Some(v) => v,
        None => 0,
    }
}

fn copy_texts(list: &Vec<String>) -> (copy: Vec<String>)
    ensures
        text::views(copy@) == text::views(list@),
{
    let mut copy: Vec<String> = Vec::new();
    let mut i: usize = 0;
    while i < list.len()
        invariant
            i <= list@.len(),
            text::views(copy@) == text::views(list@).take(i as int),
        decreases list@.len() - i,
    {
        push_text(&mut copy, list[i].clone());
        assert(text::views(list@).take(i + 1) == text::views(list@).take(i as int).push(
            list@[i as int]@,
        ));
        i = i + 1;
    }
    assert(text::views(list@).take(i as int) == text::views(list@));
    copy
}

/// The layout says of the experts, routers and other tensors what was seen.
pub open spec fn lists_what_was_seen(l: ExpertLayout, s: LayoutState, per_layer: u32) -> bool {
    &&& experts_in_order(l.experts@)
    &&& experts_finished(l.experts@)
    &&& keyed::map_of(routed_pairs(l.experts@)) == s.experts
    &&& packed_finished(l.packed_expert_layers@, per_layer)
    &&& keyed::map_of(packed_pairs(l.packed_expert_layers@)) == s.packed
    &&& forall|i: int, j: int|
        0 <= i < j < l.shared_experts@.len() ==> (#[trigger] l.shared_experts@[i]).layer < (
        #[trigger] l.shared_experts@[j]).layer
    &&& keyed::map_of(shared_pairs(l.shared_experts@)) == s.shared
    &&& forall|i: int, j: int|
        0 <= i < j < l.routers@.len() ==> (#[trigger] l.routers@[i]).layer < (
        #[trigger] l.routers@[j]).layer
    &&& keyed::map_of(router_pairs(l.routers@)) == s.routers
    &&& unknown_pairs(l.unknown_tensors@) == s.unknown
    &&& text::views(l.warnings@) == s.warnings + routed_warnings(l.experts@) + packed_warnings(
        l.packed_expert_layers@,
    ) + shared_warnings(l.shared_experts@)
}

/// The layout of a model, from its configuration and the names of its tensors.
pub fn run(model_name: &str, config: &ModelConfig, index: &SafeTensorsIndex) -> (r: Result<
    ExpertLayout,
    String,
>)
    ensures
        match r {
            Ok(l) => {
                let s = all_seen(index.weight_map@);
                let layers = or_zero(config.spec_num_hidden_layers());
                let experts = or_zero(config.spec_num_experts());
                &&& l.schema_version == 1
                &&& l.model@ == model_name@
                &&& match (l.model_type, config.model_type) {
                    (Some(a), Some(b)) => a@ == b@,
                    (None, None) => true,
                    _ => false,
                }
                &&& text::views(l.architectures@) == match config.architectures {
                    Some(a) => text::views(a@),
                    None => Seq::empty(),
                }
                &&& l.num_layers == layers
                &&& l.num_experts == experts
                &&& l.vocab_size == config.spec_vocab_size()
                &&& l.layout_kind == if s.saw_packed {
                    ExpertLayoutKind::PackedExperts
                } else {
                    ExpertLayoutKind::PerExpert
                }
                &&& l.logical_routed_expert_count == logical_count(
                    s.saw_packed,
                    l.experts@.len(),
                    layers,
                    experts,
                )
                &&& lists_what_was_seen(l, s, experts)
            },
            Err(_) => false,
        },
{
    let num_layers: u32 = unwrap_or_zero(config.effective_num_hidden_layers());
    let num_experts: u32 = unwrap_or_zero(config.effective_num_experts());
    let tensors = &index.weight_map;
    let mut b = LayoutBuilder::new(num_experts);
    let mut i: usize = 0;
    assert(tensors@.take(0) == Seq::<(String, String)>::empty());
    while i < tensors.len()
        invariant
            i <= tensors@.len(),
            b.wf(),
            b@ == all_seen(tensors@.take(i as int)),
            b.experts_per_layer == num_experts,
        decreases tensors@.len() - i,
    {
        assert(tensors@.take(i + 1).drop_last() == tensors@.take(i as int));
        b.see(tensors[i].0.as_str(), tensors[i].1.as_str());
        i = i + 1;
    }
    assert(tensors@.take(i as int) == tensors@);
    let ghost s = b@;
    let LayoutBuilder {
        expert_codes,
        mut experts,
        packed_codes,
        mut packed,
        shared_codes,
        shared,
        router_codes,
        routers,
        unknown,
        mut warnings,
        saw_packed,
        experts_per_layer,
    } = b;
    let ghost (was_experts, was_packed) = (experts@, packed@);
    complete_routed(&mut experts, &mut warnings);
    complete_packed(&mut packed, &mut warnings);
    warn_shared(&shared, &mut warnings);
    proof {
        assert forall|k: int| 0 <= k < experts@.len() implies routed_slots(#[trigger] experts@[k])
            == routed_slots(was_experts[k]) by {
            assert(same_routed(experts@[k], was_experts[k]));
        }
        assert(routed_pairs(experts@) == routed_pairs(was_experts));
        assert forall|k: int| 0 <= k < packed@.len() implies packed_slots(#[trigger] packed@[k])
            == packed_slots(was_packed[k]) by {
            assert(same_packed(packed@[k], was_packed[k]));
        }
        assert(packed_pairs(packed@) == packed_pairs(was_packed));
        assert forall|a: int, c: int| 0 <= a < c < experts@.len() implies expert_code(
            (#[trigger] experts@[a]).layer,
            experts@[a].expert,
        ) < expert_code((#[trigger] experts@[c]).layer, experts@[c].expert) by {
            assert(same_routed(experts@[a], was_experts[a]));
            assert(same_routed(experts@[c], was_experts[c]));
            assert(expert_codes@[a] < expert_codes@[c]);
        }
        assert forall|k: int| 0 <= k < experts@.len() implies text::ascending_texts(
            text::views((#[trigger] experts@[k]).source_files@),
        ) by {
            assert(same_routed(experts@[k], was_experts[k]));
        }
        assert forall|a: int, c: int| 0 <= a < c < packed@.len() implies (
        #[trigger] packed@[a]).layer < (#[trigger] packed@[c]).layer by {
            assert(same_packed(packed@[a], was_packed[a]));
            assert(same_packed(packed@[c], was_packed[c]));
            assert(packed_codes@[a] < packed_codes@[c]);
        }
        assert forall|k: int| 0 <= k < packed@.len() implies text::ascending_texts(
            text::views((#[trigger] packed@[k]).source_files@),
        ) && packed@[k].num_experts_per_layer == num_experts by {
            assert(same_packed(packed@[k], was_packed[k]));
        }
        assert forall|a: int, c: int| 0 <= a < c < shared@.len() implies (
        #[trigger] shared@[a]).layer < (#[trigger] shared@[c]).layer by {
            assert(shared_codes@[a] < shared_codes@[c]);
        }
        assert forall|a: int, c: int| 0 <= a < c < routers@.len() implies (
        #[trigger] routers@[a]).layer < (#[trigger] routers@[c]).layer by {
            assert(router_codes@[a] < router_codes@[c]);
        }
        assert(num_layers * num_experts <= 0xffff_ffff * 0xffff_ffff) by (nonlinear_arith)
            requires
                num_layers <= 0xffff_ffff,
                num_experts <= 0xffff_ffff,
        ;
    }
    let counted = saw_packed || (experts.len() > 0 && num_layers > 0 && num_experts > 0);
    let logical: u64 = if counted {
        num_layers as u64 * num_experts as u64
    } else {
        experts.len() as u64
    };
    Ok(
        ExpertLayout {
            schema_version: 1,
            model: model_name.to_owned(),
            model_type: match &config.model_type {
                Some(t) => Some(t.clone()),
                None => None,
            },
            architectures: match &config.architectures {
                Some(a) => copy_texts(a),
                None => Vec::new(),
            },
            num_layers,
            num_experts,
            vocab_size: config.effective_vocab_size(),
            layout_kind: if saw_packed {
                ExpertLayoutKind::PackedExperts
            } else {
                ExpertLayoutKind::PerExpert
            },
            logical_routed_expert_count: logical,
            experts,
            packed_expert_layers: packed,
            shared_experts: shared,
            routers,
            unknown_tensors: unknown,
            warnings,
        },
    )
}

// ---------------------------------------------------------------------------
// Laws
// ---------------------------------------------------------------------------

/// A router is never taken for an expert.
pub proof fn routers_are_no_experts(s: LayoutState, name: Seq<char>, file: Seq<char>)
    requires
        kind_of(name) == ExpertTensorKind::Router,
    ensures
        seen(s, name, file).experts == s.experts,
        seen(s, name, file).packed == s.packed,
        seen(s, name, file).shared == s.shared,
{
}

/// A tensor of a shared expert is never taken for one of a routed expert.
pub proof fn shared_experts_are_not_routed(s: LayoutState, name: Seq<char>, file: Seq<char>)
    requires
        names_shared(name),
    ensures
        seen(s, name, file).experts == s.experts,
{
}

/// The name is that of a tensor of the routed expert.
pub open spec fn names_expert(name: Seq<char>, key: ExpertKey) -> bool {
    let k = kind_of(name);
    &&& k == ExpertTensorKind::Gate || k == ExpertTensorKind::Up || k == ExpertTensorKind::GateUp
        || k == ExpertTensorKind::Down
    &&& !names_shared(name)
    &&& util::number_after(name, "layers."@) == Some(key.layer)
    &&& util::number_after(name, "experts."@) == Some(key.expert)
}

/// A routed expert is listed exactly when some tensor names it, whatever the order
/// of the tensors.
pub proof fn listed_iff_named(tensors: Seq<(String, String)>, key: ExpertKey)
    ensures
        all_seen(tensors).experts.contains_key(key) <==> exists|i: int|
            0 <= i < tensors.len() && names_expert((#[trigger] tensors[i]).0@, key),
    decreases tensors.len(),
{
    if tensors.len() > 0 {
        let front = tensors.drop_last();
        listed_iff_named(front, key);
        if all_seen(front).experts.contains_key(key) {
            let i = choose|i: int|
                0 <= i < front.len() && names_expert((#[trigger] front[i]).0@, key);
            assert(names_expert(tensors[i].0@, key));
        }
        if names_expert(tensors.last().0@, key) {
            assert(names_expert(tensors[tensors.len() - 1].0@, key));
        }
        if exists|i: int|
            0 <= i < tensors.len() && names_expert((#[trigger] tensors[i]).0@, key) {
            let i = choose|i: int|
                0 <= i < tensors.len() && names_expert((#[trigger] tensors[i]).0@, key);
            if i < front.len() {
                assert(names_expert(front[i].0@, key));
            }
        }
    }
}

/// A tensor that is none of the known ones is listed as such, and changes nothing
/// else.
pub proof fn unknown_tensors_are_listed(s: LayoutState, name: Seq<char>, file: Seq<char>)
    requires
        kind_of(name) == ExpertTensorKind::Unknown,
    ensures
        seen(s, name, file) == (LayoutState { unknown: s.unknown.push((name, file)), ..s }),
{
}

} // verus!
