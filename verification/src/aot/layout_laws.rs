//! What holds of every expert layout: each tensor stands where its name puts it.

use crate::aot::keyed;
use crate::aot::layout_pass;
use crate::aot::layout_pass::{LayoutState, Slots, TensorFacts};
use crate::aot::types::{
    ExpertEntry, ExpertKey, ExpertLayout, ExpertTensorKind, PackedExpertLayerEntry, RouterEntry,
    SharedExpertEntry, TensorRef,
};
use crate::aot::util;
use crate::text;
use vstd::prelude::*;

verus! {

// ---------------------------------------------------------------------------
// Names
// ---------------------------------------------------------------------------

/// A tensor is one of the projections only where its name spells the projection
/// out, and a tensor whose name spells none out is no projection.
pub proof fn kinds_are_spelled_out(name: Seq<char>)
    ensures
        match layout_pass::kind_of(name) {
            ExpertTensorKind::Gate => text::contains_text(name, "gate_proj"@)
                && !text::contains_text(name, "gate_up_proj"@),
            ExpertTensorKind::Up => text::contains_text(name, "up_proj"@) && !text::contains_text(
                name,
                "gate_up_proj"@,
            ) && !text::contains_text(name, "gate_proj"@),
            ExpertTensorKind::GateUp => text::contains_text(name, "gate_up_proj"@),
            ExpertTensorKind::Down => text::contains_text(name, "down_proj"@)
                && !text::contains_text(name, "gate_proj"@) && !text::contains_text(
                name,
                "up_proj"@,
            ),
            ExpertTensorKind::PackedGateUp => text::contains_text(
                name,
                ".mlp.experts.gate_up_proj"@,
            ) && util::number_after(name, "experts."@) is None,
            ExpertTensorKind::PackedDown => text::contains_text(name, ".mlp.experts.down_proj"@)
                && util::number_after(name, "experts."@) is None,
            ExpertTensorKind::Router => text::contains_text(name, ".mlp.gate.weight"@)
                && !text::contains_text(name, ".experts."@),
            ExpertTensorKind::Shared => text::contains_text(name, ".shared_expert_gate.weight"@),
            ExpertTensorKind::Unknown => !text::contains_text(name, "gate_proj"@)
                && !text::contains_text(name, "up_proj"@) && !text::contains_text(
                name,
                "down_proj"@,
            ) && !text::contains_text(name, "gate_up_proj"@),
        },
{
}

/// A tensor of a numbered expert whose name spells out one projection is that
/// projection, unless the name also is that of a shared expert's own gate.
pub proof fn projections_are_told(name: Seq<char>)
    requires
        text::contains_text(name, ".experts."@),
        util::number_after(name, "experts."@) is Some,
        !text::contains_text(name, ".shared_expert_gate.weight"@),
    ensures
        text::contains_text(name, "gate_up_proj"@) ==> layout_pass::kind_of(name)
            == ExpertTensorKind::GateUp,
        text::contains_text(name, "gate_proj"@) && !text::contains_text(name, "gate_up_proj"@)
            ==> layout_pass::kind_of(name) == ExpertTensorKind::Gate,
        text::contains_text(name, "up_proj"@) && !text::contains_text(name, "gate_up_proj"@)
            && !text::contains_text(name, "gate_proj"@) ==> layout_pass::kind_of(name)
            == ExpertTensorKind::Up,
        text::contains_text(name, "down_proj"@) && !text::contains_text(name, "gate_up_proj"@)
            && !text::contains_text(name, "gate_proj"@) && !text::contains_text(name, "up_proj"@)
            ==> layout_pass::kind_of(name) == ExpertTensorKind::Down,
{
}

// ---------------------------------------------------------------------------
// Slots
// ---------------------------------------------------------------------------

/// The kind is that of a projection of one expert.
pub open spec fn is_projection(kind: ExpertTensorKind) -> bool {
    kind == ExpertTensorKind::Gate || kind == ExpertTensorKind::Up || kind
        == ExpertTensorKind::GateUp || kind == ExpertTensorKind::Down
}

/// The tensor of the kind.
pub open spec fn slot_of(s: Slots, kind: ExpertTensorKind) -> Option<TensorFacts> {
    match kind {
        ExpertTensorKind::Gate => s.gate,
        ExpertTensorKind::Up => s.up,
        ExpertTensorKind::GateUp | ExpertTensorKind::PackedGateUp => s.gate_up,
        ExpertTensorKind::Down | ExpertTensorKind::PackedDown => s.down,
        ExpertTensorKind::Shared => s.shared_gate,
        _ => None,
    }
}

/// The name is that of the routed expert's tensor of the kind.
pub open spec fn of_expert(name: Seq<char>, key: ExpertKey, kind: ExpertTensorKind) -> bool {
    &&& layout_pass::kind_of(name) == kind
    &&& !text::contains_text(name, ".shared_expert."@)
    &&& util::number_after(name, "layers."@) == Some(key.layer)
    &&& util::number_after(name, "experts."@) == Some(key.expert)
}

/// The name is that of the layer's shared expert's tensor of the kind.
pub open spec fn of_shared(name: Seq<char>, layer: u32, kind: ExpertTensorKind) -> bool {
    &&& layout_pass::kind_of(name) == kind
    &&& text::contains_text(name, ".shared_expert."@)
    &&& util::number_after(name, "layers."@) == Some(layer)
}

/// The name is that of the layer's tensor of the kind.
pub open spec fn of_layer(name: Seq<char>, layer: u32, kind: ExpertTensorKind) -> bool {
    layout_pass::kind_of(name) == kind && util::number_after(name, "layers."@) == Some(layer)
}

/// `slot` holds the last tensor of the list whose name qualifies, with its name and
/// file, and nothing where none does.
pub open spec fn holds_last(
    slot: Option<TensorFacts>,
    tensors: Seq<(String, String)>,
    fits: spec_fn(Seq<char>) -> bool,
) -> bool {
    match slot {
        Some(t) => exists|i: int|
            0 <= i < tensors.len() && fits((#[trigger] tensors[i]).0@) && t.name == tensors[i].0@
                && t.file == tensors[i].1@ && t.kind == layout_pass::kind_of(t.name) && forall|
                j: int,
            |
                i < j < tensors.len() ==> !fits((#[trigger] tensors[j]).0@),
        None => forall|i: int| 0 <= i < tensors.len() ==> !fits((#[trigger] tensors[i]).0@),
    }
}

/// One more tensor either takes the slot or leaves it.
proof fn lemma_holds_next(
    was: Option<TensorFacts>,
    now: Option<TensorFacts>,
    tensors: Seq<(String, String)>,
    fits: spec_fn(Seq<char>) -> bool,
)
    requires
        tensors.len() > 0,
        holds_last(was, tensors.drop_last(), fits),
        fits(tensors.last().0@) ==> now == Some(
            layout_pass::facts_of_name(tensors.last().0@, tensors.last().1@),
        ),
        !fits(tensors.last().0@) ==> now == was,
    ensures
        holds_last(now, tensors, fits),
{
    let front = tensors.drop_last();
    let n = tensors.len() - 1;
    if fits(tensors[n].0@) {
        assert(tensors[n] == tensors.last());
    } else {
        match was {
            Some(t) => {
                let i = choose|i: int|
                    0 <= i < front.len() && fits((#[trigger] front[i]).0@) && t.name
                        == front[i].0@ && t.file == front[i].1@ && t.kind == layout_pass::kind_of(
                        t.name,
                    ) && forall|j: int| i < j < front.len() ==> !fits((#[trigger] front[j]).0@);
                assert(tensors[i] == front[i]);
                assert forall|j: int| i < j < tensors.len() implies !fits(
                    (#[trigger] tensors[j]).0@,
                ) by {
                    if j < n {
                        assert(front[j] == tensors[j]);
                    }
                }
            },
            None => {
                assert forall|j: int| 0 <= j < tensors.len() implies !fits(
                    (#[trigger] tensors[j]).0@,
                ) by {
                    if j < n {
                        assert(front[j] == tensors[j]);
                    }
                }
            },
        }
    }
}

/// A routed expert's slot of a kind holds the last tensor that names the expert
/// and the kind.
proof fn lemma_expert_slot(tensors: Seq<(String, String)>, key: ExpertKey, kind: ExpertTensorKind)
    requires
        is_projection(kind),
    ensures
        holds_last(
            slot_of(layout_pass::slots_at(layout_pass::all_seen(tensors).experts, key), kind),
            tensors,
            |name: Seq<char>| of_expert(name, key, kind),
        ),
    decreases tensors.len(),
{
    let fits = |name: Seq<char>| of_expert(name, key, kind);
    if tensors.len() > 0 {
        let front = tensors.drop_last();
        lemma_expert_slot(front, key, kind);
        lemma_holds_next(
            slot_of(layout_pass::slots_at(layout_pass::all_seen(front).experts, key), kind),
            slot_of(layout_pass::slots_at(layout_pass::all_seen(tensors).experts, key), kind),
            tensors,
            fits,
        );
    }
}

/// A shared expert's slot of a kind holds the last tensor that names the layer and
/// the kind.
proof fn lemma_shared_slot(tensors: Seq<(String, String)>, layer: u32, kind: ExpertTensorKind)
    requires
        is_projection(kind) || kind == ExpertTensorKind::Shared,
    ensures
        holds_last(
            slot_of(layout_pass::slots_at(layout_pass::all_seen(tensors).shared, layer), kind),
            tensors,
            |name: Seq<char>| of_shared(name, layer, kind),
        ),
    decreases tensors.len(),
{
    let fits = |name: Seq<char>| of_shared(name, layer, kind);
    if tensors.len() > 0 {
        let front = tensors.drop_last();
        lemma_shared_slot(front, layer, kind);
        lemma_holds_next(
            slot_of(layout_pass::slots_at(layout_pass::all_seen(front).shared, layer), kind),
            slot_of(layout_pass::slots_at(layout_pass::all_seen(tensors).shared, layer), kind),
            tensors,
            fits,
        );
    }
}

/// A packed layer's slot of a kind holds the last tensor that names the layer and
/// the kind.
proof fn lemma_packed_slot(tensors: Seq<(String, String)>, layer: u32, kind: ExpertTensorKind)
    requires
        kind == ExpertTensorKind::PackedGateUp || kind == ExpertTensorKind::PackedDown,
    ensures
        holds_last(
            slot_of(layout_pass::slots_at(layout_pass::all_seen(tensors).packed, layer), kind),
            tensors,
            |name: Seq<char>| of_layer(name, layer, kind),
        ),
    decreases tensors.len(),
{
    let fits = |name: Seq<char>| of_layer(name, layer, kind);
    if tensors.len() > 0 {
        let front = tensors.drop_last();
        lemma_packed_slot(front, layer, kind);
        lemma_holds_next(
            slot_of(layout_pass::slots_at(layout_pass::all_seen(front).packed, layer), kind),
            slot_of(layout_pass::slots_at(layout_pass::all_seen(tensors).packed, layer), kind),
            tensors,
            fits,
        );
    }
}

/// The router of a layer, none where none was seen.
spec fn router_at(m: Map<u32, TensorFacts>, layer: u32) -> Option<TensorFacts> {
    if m.contains_key(layer) {
        Some(m[layer])
    } else {
        None
    }
}

/// A layer's router is the last tensor that names the layer as a router.
proof fn lemma_router_slot(tensors: Seq<(String, String)>, layer: u32)
    ensures
        holds_last(
            router_at(layout_pass::all_seen(tensors).routers, layer),
            tensors,
            |name: Seq<char>| of_layer(name, layer, ExpertTensorKind::Router),
        ),
    decreases tensors.len(),
{
    let fits = |name: Seq<char>| of_layer(name, layer, ExpertTensorKind::Router);
    if tensors.len() > 0 {
        let front = tensors.drop_last();
        lemma_router_slot(front, layer);
        lemma_holds_next(
            router_at(layout_pass::all_seen(front).routers, layer),
            router_at(layout_pass::all_seen(tensors).routers, layer),
            tensors,
            fits,
        );
    }
}

// ---------------------------------------------------------------------------
// Layouts
// ---------------------------------------------------------------------------

/// The reference is to the last tensor of the list whose name qualifies, in its
/// file and with the kind; there is none where no name qualifies.
pub open spec fn refers_to_last(
    t: Option<TensorRef>,
    kind: ExpertTensorKind,
    tensors: Seq<(String, String)>,
    fits: spec_fn(Seq<char>) -> bool,
) -> bool {
    match t {
        Some(r) => r.tensor_kind == kind && exists|i: int|
            0 <= i < tensors.len() && fits((#[trigger] tensors[i]).0@) && r.tensor_name@
                == tensors[i].0@ && r.source_file@ == tensors[i].1@ && forall|j: int|
                i < j < tensors.len() ==> !fits((#[trigger] tensors[j]).0@),
        None => forall|i: int| 0 <= i < tensors.len() ==> !fits((#[trigger] tensors[i]).0@),
    }
}

proof fn lemma_refers(
    t: Option<TensorRef>,
    kind: ExpertTensorKind,
    tensors: Seq<(String, String)>,
    fits: spec_fn(Seq<char>) -> bool,
)
    requires
        holds_last(layout_pass::opt_facts(t), tensors, fits),
        forall|name: Seq<char>| #[trigger] fits(name) ==> layout_pass::kind_of(name) == kind,
    ensures
        refers_to_last(t, kind, tensors, fits),
{
}

/// In every layout a routed expert's gate, up, joined and down projection are the
/// last tensors that are named so for its layer and number. A tensor listed as one
/// projection is of that kind.
pub proof fn projections_stand_in_their_place(
    l: ExpertLayout,
    tensors: Seq<(String, String)>,
    per_layer: u32,
    i: int,
)
    requires
        layout_pass::lists_what_was_seen(l, layout_pass::all_seen(tensors), per_layer),
        0 <= i < l.experts@.len(),
    ensures
        ({
            let e = l.experts@[i];
            let key = ExpertKey { layer: e.layer, expert: e.expert };
            &&& refers_to_last(
                e.gate,
                ExpertTensorKind::Gate,
                tensors,
                |name: Seq<char>| of_expert(name, key, ExpertTensorKind::Gate),
            )
            &&& refers_to_last(
                e.up,
                ExpertTensorKind::Up,
                tensors,
                |name: Seq<char>| of_expert(name, key, ExpertTensorKind::Up),
            )
            &&& refers_to_last(
                e.gate_up,
                ExpertTensorKind::GateUp,
                tensors,
                |name: Seq<char>| of_expert(name, key, ExpertTensorKind::GateUp),
            )
            &&& refers_to_last(
                e.down,
                ExpertTensorKind::Down,
                tensors,
                |name: Seq<char>| of_expert(name, key, ExpertTensorKind::Down),
            )
            &&& e.gate matches Some(t) ==> t.tensor_kind == ExpertTensorKind::Gate
            &&& e.up matches Some(t) ==> t.tensor_kind == ExpertTensorKind::Up
            &&& e.gate_up matches Some(t) ==> t.tensor_kind == ExpertTensorKind::GateUp
            &&& e.down matches Some(t) ==> t.tensor_kind == ExpertTensorKind::Down
        }),
{
    let e = l.experts@[i];
    let key = ExpertKey { layer: e.layer, expert: e.expert };
    let s = layout_pass::all_seen(tensors);
    let pairs = layout_pass::routed_pairs(l.experts@);
    lemma_experts_are_unique(l.experts@);
    keyed::item_is_found(pairs, i);
    assert(pairs[i] == (key, layout_pass::routed_slots(e)));
    assert(layout_pass::slots_at(s.experts, key) == layout_pass::routed_slots(e));
    lemma_expert_slot(tensors, key, ExpertTensorKind::Gate);
    lemma_expert_slot(tensors, key, ExpertTensorKind::Up);
    lemma_expert_slot(tensors, key, ExpertTensorKind::GateUp);
    lemma_expert_slot(tensors, key, ExpertTensorKind::Down);
    lemma_refers(
        e.gate,
        ExpertTensorKind::Gate,
        tensors,
        |name: Seq<char>| of_expert(name, key, ExpertTensorKind::Gate),
    );
    lemma_refers(
        e.up,
        ExpertTensorKind::Up,
        tensors,
        |name: Seq<char>| of_expert(name, key, ExpertTensorKind::Up),
    );
    lemma_refers(
        e.gate_up,
        ExpertTensorKind::GateUp,
        tensors,
        |name: Seq<char>| of_expert(name, key, ExpertTensorKind::GateUp),
    );
    lemma_refers(
        e.down,
        ExpertTensorKind::Down,
        tensors,
        |name: Seq<char>| of_expert(name, key, ExpertTensorKind::Down),
    );
}

proof fn lemma_experts_are_unique(es: Seq<ExpertEntry>)
    requires
        layout_pass::experts_in_order(es),
    ensures
        keyed::unique(layout_pass::routed_pairs(es)),
{
    let pairs = layout_pass::routed_pairs(es);
    assert forall|a: int, b: int|
        0 <= a < pairs.len() && 0 <= b < pairs.len() && a != b implies (#[trigger] pairs[a]).0 != (
    #[trigger] pairs[b]).0 by {
        let (x, y) = if a < b {
            (a, b)
        } else {
            (b, a)
        };
        assert(layout_pass::expert_code(es[x].layer, es[x].expert) < layout_pass::expert_code(
            es[y].layer,
            es[y].expert,
        ));
    }
}

/// In every layout a shared expert's projections and its own gate are the last
/// tensors that are named so for its layer. A tensor listed as one of them is of
/// that kind.
pub proof fn shared_tensors_stand_in_their_place(
    l: ExpertLayout,
    tensors: Seq<(String, String)>,
    per_layer: u32,
    i: int,
)
    requires
        layout_pass::lists_what_was_seen(l, layout_pass::all_seen(tensors), per_layer),
        0 <= i < l.shared_experts@.len(),
    ensures
        ({
            let e = l.shared_experts@[i];
            &&& refers_to_last(
                e.gate,
                ExpertTensorKind::Gate,
                tensors,
                |name: Seq<char>| of_shared(name, e.layer, ExpertTensorKind::Gate),
            )
            &&& refers_to_last(
                e.up,
                ExpertTensorKind::Up,
                tensors,
                |name: Seq<char>| of_shared(name, e.layer, ExpertTensorKind::Up),
            )
            &&& refers_to_last(
                e.gate_up,
                ExpertTensorKind::GateUp,
                tensors,
                |name: Seq<char>| of_shared(name, e.layer, ExpertTensorKind::GateUp),
            )
            &&& refers_to_last(
                e.down,
                ExpertTensorKind::Down,
                tensors,
                |name: Seq<char>| of_shared(name, e.layer, ExpertTensorKind::Down),
            )
            &&& refers_to_last(
                e.shared_gate,
                ExpertTensorKind::Shared,
                tensors,
                |name: Seq<char>| of_shared(name, e.layer, ExpertTensorKind::Shared),
            )
        }),
{
    let e = l.shared_experts@[i];
    let s = layout_pass::all_seen(tensors);
    let pairs = layout_pass::shared_pairs(l.shared_experts@);
    assert(keyed::unique(pairs)) by {
        assert forall|a: int, b: int|
            0 <= a < pairs.len() && 0 <= b < pairs.len() && a != b implies (#[trigger] pairs[a]).0
            != (#[trigger] pairs[b]).0 by {
            let (x, y) = if a < b {
                (a, b)
            } else {
                (b, a)
            };
            assert(l.shared_experts@[x].layer < l.shared_experts@[y].layer);
        }
    }
    keyed::item_is_found(pairs, i);
    assert(pairs[i] == (e.layer, layout_pass::shared_slots(e)));
    assert(layout_pass::slots_at(s.shared, e.layer) == layout_pass::shared_slots(e));
    lemma_shared_slot(tensors, e.layer, ExpertTensorKind::Gate);
    lemma_shared_slot(tensors, e.layer, ExpertTensorKind::Up);
    lemma_shared_slot(tensors, e.layer, ExpertTensorKind::GateUp);
    lemma_shared_slot(tensors, e.layer, ExpertTensorKind::Down);
    lemma_shared_slot(tensors, e.layer, ExpertTensorKind::Shared);
    lemma_refers(
        e.gate,
        ExpertTensorKind::Gate,
        tensors,
        |name: Seq<char>| of_shared(name, e.layer, ExpertTensorKind::Gate),
    );
    lemma_refers(
        e.up,
        ExpertTensorKind::Up,
        tensors,
        |name: Seq<char>| of_shared(name, e.layer, ExpertTensorKind::Up),
    );
    lemma_refers(
        e.gate_up,
        ExpertTensorKind::GateUp,
        tensors,
        |name: Seq<char>| of_shared(name, e.layer, ExpertTensorKind::GateUp),
    );
    lemma_refers(
        e.down,
        ExpertTensorKind::Down,
        tensors,
        |name: Seq<char>| of_shared(name, e.layer, ExpertTensorKind::Down),
    );
    lemma_refers(
        e.shared_gate,
        ExpertTensorKind::Shared,
        tensors,
        |name: Seq<char>| of_shared(name, e.layer, ExpertTensorKind::Shared),
    );
}

/// In every layout a packed layer's joined and down projection are the last
/// tensors that are named so for the layer.
pub proof fn packed_tensors_stand_in_their_place(
    l: ExpertLayout,
    tensors: Seq<(String, String)>,
    per_layer: u32,
    i: int,
)
    requires
        layout_pass::lists_what_was_seen(l, layout_pass::all_seen(tensors), per_layer),
        0 <= i < l.packed_expert_layers@.len(),
    ensures
        ({
            let e = l.packed_expert_layers@[i];
            &&& refers_to_last(
                e.gate_up,
                ExpertTensorKind::PackedGateUp,
                tensors,
                |name: Seq<char>| of_layer(name, e.layer, ExpertTensorKind::PackedGateUp),
            )
            &&& refers_to_last(
                e.down,
                ExpertTensorKind::PackedDown,
                tensors,
                |name: Seq<char>| of_layer(name, e.layer, ExpertTensorKind::PackedDown),
            )
            &&& e.num_experts_per_layer == per_layer
        }),
{
    let e = l.packed_expert_layers@[i];
    let s = layout_pass::all_seen(tensors);
    let pairs = layout_pass::packed_pairs(l.packed_expert_layers@);
    assert(keyed::unique(pairs)) by {
        assert forall|a: int, b: int|
            0 <= a < pairs.len() && 0 <= b < pairs.len() && a != b implies (#[trigger] pairs[a]).0
            != (#[trigger] pairs[b]).0 by {
            let (x, y) = if a < b {
                (a, b)
            } else {
                (b, a)
            };
            assert(l.packed_expert_layers@[x].layer < l.packed_expert_layers@[y].layer);
        }
    }
    keyed::item_is_found(pairs, i);
    assert(pairs[i] == (e.layer, layout_pass::packed_slots(e)));
    assert(layout_pass::slots_at(s.packed, e.layer) == layout_pass::packed_slots(e));
    lemma_packed_slot(tensors, e.layer, ExpertTensorKind::PackedGateUp);
    lemma_packed_slot(tensors, e.layer, ExpertTensorKind::PackedDown);
    lemma_refers(
        e.gate_up,
        ExpertTensorKind::PackedGateUp,
        tensors,
        |name: Seq<char>| of_layer(name, e.layer, ExpertTensorKind::PackedGateUp),
    );
    lemma_refers(
        e.down,
        ExpertTensorKind::PackedDown,
        tensors,
        |name: Seq<char>| of_layer(name, e.layer, ExpertTensorKind::PackedDown),
    );
}

/// In every layout a layer's router is the last tensor that is named so.
pub proof fn routers_stand_in_their_place(
    l: ExpertLayout,
    tensors: Seq<(String, String)>,
    per_layer: u32,
    i: int,
)
    requires
        layout_pass::lists_what_was_seen(l, layout_pass::all_seen(tensors), per_layer),
        0 <= i < l.routers@.len(),
    ensures
        refers_to_last(
            Some(l.routers@[i].tensor),
            ExpertTensorKind::Router,
            tensors,
            |name: Seq<char>| of_layer(name, l.routers@[i].layer, ExpertTensorKind::Router),
        ),
{
    let e = l.routers@[i];
    let s = layout_pass::all_seen(tensors);
    let pairs = layout_pass::router_pairs(l.routers@);
    assert(keyed::unique(pairs)) by {
        assert forall|a: int, b: int|
            0 <= a < pairs.len() && 0 <= b < pairs.len() && a != b implies (#[trigger] pairs[a]).0
            != (#[trigger] pairs[b]).0 by {
            let (x, y) = if a < b {
                (a, b)
            } else {
                (b, a)
            };
            assert(l.routers@[x].layer < l.routers@[y].layer);
        }
    }
    keyed::item_is_found(pairs, i);
    assert(pairs[i] == (e.layer, layout_pass::facts(e.tensor)));
    lemma_router_slot(tensors, e.layer);
    assert(router_at(s.routers, e.layer) == layout_pass::opt_facts(Some(e.tensor)));
    lemma_refers(
        Some(e.tensor),
        ExpertTensorKind::Router,
        tensors,
        |name: Seq<char>| of_layer(name, l.routers@[i].layer, ExpertTensorKind::Router),
    );
}

/// An expert counts as complete exactly where its down projection is there, and
/// its gate and up projection are, apart or as one.
pub proof fn complete_experts_can_be_computed(
    l: ExpertLayout,
    s: LayoutState,
    per_layer: u32,
    i: int,
)
    requires
        layout_pass::lists_what_was_seen(l, s, per_layer),
    ensures
        0 <= i < l.experts@.len() ==> {
            let e = l.experts@[i];
            e.complete <==> e.down is Some && (e.gate_up is Some || (e.gate is Some && e.up is Some))
        },
        0 <= i < l.packed_expert_layers@.len() ==> {
            let e = l.packed_expert_layers@[i];
            e.complete <==> e.gate_up is Some && e.down is Some
        },
{
}

/// There is one warning for each expert that is not complete.
pub proof fn incomplete_experts_are_warned_of(es: Seq<ExpertEntry>)
    requires
        layout_pass::experts_finished(es),
    ensures
        layout_pass::routed_warnings(es).len() == es.filter(|e: ExpertEntry| !e.complete).len(),
    decreases es.len(),
{
    reveal(Seq::filter);
    if es.len() > 0 {
        let front = es.drop_last();
        assert forall|i: int| 0 <= i < front.len() implies text::ascending_texts(
            text::views((#[trigger] front[i]).source_files@),
        ) && front[i].complete == layout_pass::is_complete(
            layout_pass::routed_slots(front[i]),
        ) by {
            assert(front[i] == es[i]);
        }
        incomplete_experts_are_warned_of(front);
        assert(es.last() == es[es.len() - 1]);
    }
}

/// The files of a routed expert are those of the tensors that name it.
pub proof fn files_are_those_of_the_tensors(
    tensors: Seq<(String, String)>,
    key: ExpertKey,
    file: Seq<char>,
)
    ensures
        layout_pass::slots_at(layout_pass::all_seen(tensors).experts, key).files.contains(file)
            <==> exists|i: int|
            0 <= i < tensors.len() && layout_pass::names_expert(
                (#[trigger] tensors[i]).0@,
                key,
            ) && tensors[i].1@ == file,
    decreases tensors.len(),
{
    if tensors.len() > 0 {
        let front = tensors.drop_last();
        let n = tensors.len() - 1;
        files_are_those_of_the_tensors(front, key, file);
        assert forall|i: int| 0 <= i < front.len() implies front[i] == tensors[i] by {}
        if exists|i: int|
            0 <= i < front.len() && layout_pass::names_expert((#[trigger] front[i]).0@, key)
                && front[i].1@ == file {
            let i = choose|i: int|
                0 <= i < front.len() && layout_pass::names_expert((#[trigger] front[i]).0@, key)
                    && front[i].1@ == file;
            assert(layout_pass::names_expert(tensors[i].0@, key) && tensors[i].1@ == file);
        }
        if exists|i: int|
            0 <= i < tensors.len() && layout_pass::names_expert((#[trigger] tensors[i]).0@, key)
                && tensors[i].1@ == file {
            let i = choose|i: int|
                0 <= i < tensors.len() && layout_pass::names_expert((#[trigger] tensors[i]).0@, key)
                    && tensors[i].1@ == file;
            if i < n {
                assert(layout_pass::names_expert(front[i].0@, key) && front[i].1@ == file);
            }
        }
        if layout_pass::names_expert(tensors[n].0@, key) && tensors[n].1@ == file {
            assert(tensors[n] == tensors.last());
        }
    }
}

/// No tensor is lost: one that is neither listed as unknown nor warned of stands
/// in the slot of its kind, or is the router of its layer.
pub proof fn no_tensor_is_lost(s: LayoutState, name: Seq<char>, file: Seq<char>)
    requires
        layout_pass::seen(s, name, file).unknown == s.unknown,
        layout_pass::seen(s, name, file).warnings == s.warnings,
    ensures
        ({
            let now = layout_pass::seen(s, name, file);
            let t = Some(layout_pass::facts_of_name(name, file));
            let kind = layout_pass::kind_of(name);
            let layer = util::number_after(name, "layers."@)->0;
            let expert = util::number_after(name, "experts."@)->0;
            &&& util::number_after(name, "layers."@) is Some
            &&& if kind == ExpertTensorKind::Router {
                now.routers.contains_key(layer) && Some(now.routers[layer]) == t
            } else if kind == ExpertTensorKind::PackedGateUp || kind
                == ExpertTensorKind::PackedDown {
                slot_of(layout_pass::slots_at(now.packed, layer), kind) == t
            } else if text::contains_text(name, ".shared_expert."@) {
                slot_of(layout_pass::slots_at(now.shared, layer), kind) == t
            } else {
                slot_of(
                    layout_pass::slots_at(now.experts, ExpertKey { layer, expert }),
                    kind,
                ) == t && util::number_after(name, "experts."@) is Some
            }
        }),
{
    assert(s.unknown.push((name, file)).len() == s.unknown.len() + 1);
    let what = "shared tensor missing layer index: "@;
    assert(s.warnings.push(what + name).len() == s.warnings.len() + 1);
    let what = "shared gate tensor missing layer index: "@;
    assert(s.warnings.push(what + name).len() == s.warnings.len() + 1);
    let what = "expert tensor missing layer or expert index: "@;
    assert(s.warnings.push(what + name).len() == s.warnings.len() + 1);
    let what = "packed expert tensor missing layer index: "@;
    assert(s.warnings.push(what + name).len() == s.warnings.len() + 1);
}

/// A model with packed experts, or one whose experts were seen and whose
/// configuration counts them, has as many experts as the configuration says; else
/// those that were seen count.
pub proof fn experts_are_counted(packed: bool, seen: nat, layers: u32, experts: u32)
    ensures
        packed ==> layout_pass::logical_count(packed, seen, layers, experts) == layers * experts,
        !packed && seen == 0 ==> layout_pass::logical_count(packed, seen, layers, experts) == 0,
        !packed && (layers == 0 || experts == 0) ==> layout_pass::logical_count(
            packed,
            seen,
            layers,
            experts,
        ) == seen,
        seen > 0 && layers > 0 && experts > 0 ==> layout_pass::logical_count(
            packed,
            seen,
            layers,
            experts,
        ) == layers * experts,
{
    assert(0 <= layers * experts) by (nonlinear_arith)
        requires
            0 <= layers,
            0 <= experts,
    ;
}

/// A tensor holds all experts of a layer if one of the two packed names stands
/// anywhere in its name, and only then.
pub proof fn packed_names_are_told(head: Seq<char>, tail: Seq<char>, name: Seq<char>)
    ensures
        layout_pass::names_packed(head + ".mlp.experts.gate_up_proj"@ + tail),
        layout_pass::names_packed(head + ".mlp.experts.down_proj"@ + tail),
        layout_pass::names_packed(name) ==> {
            ||| exists|a: Seq<char>, b: Seq<char>|
                name == #[trigger] (a + ".mlp.experts.gate_up_proj"@ + b)
            ||| exists|a: Seq<char>, b: Seq<char>|
                name == #[trigger] (a + ".mlp.experts.down_proj"@ + b)
        },
{
    text::middles_are_contained(head, ".mlp.experts.gate_up_proj"@, tail);
    text::middles_are_contained(head, ".mlp.experts.down_proj"@, tail);
    if layout_pass::names_packed(name) {
        let pat = if text::contains_text(name, ".mlp.experts.gate_up_proj"@) {
            ".mlp.experts.gate_up_proj"@
        } else {
            ".mlp.experts.down_proj"@
        };
        let i = choose|i: int| text::occurs_at(name, pat, i);
        let (a, b) = (name.subrange(0, i), name.subrange(i + pat.len(), name.len() as int));
        assert(name == a + pat + b) by {
            assert(name.subrange(i, i + pat.len()) == pat);
            assert(name == a + name.subrange(i, i + pat.len()) + b);
        }
    }
}

/// Each shared expert that cannot be computed is warned of, with its layer, and no
/// other is.
pub proof fn incomplete_shared_experts_are_warned_of(es: Seq<SharedExpertEntry>)
    ensures
        layout_pass::shared_warnings(es).len() == es.filter(
            |e: SharedExpertEntry| !layout_pass::is_complete(layout_pass::shared_slots(e)),
        ).len(),
        forall|i: int|
            0 <= i < es.len() && !layout_pass::is_complete(
                layout_pass::shared_slots(#[trigger] es[i]),
            ) ==> layout_pass::shared_warnings(es).contains(
                "incomplete shared expert layer="@ + text::decimal(es[i].layer as nat)
                    + layout_pass::slots_text(layout_pass::shared_slots(es[i])),
            ),
    decreases es.len(),
{
    reveal(Seq::filter);
    if es.len() > 0 {
        let front = es.drop_last();
        incomplete_shared_experts_are_warned_of(front);
        let (was, now) = (layout_pass::shared_warnings(front), layout_pass::shared_warnings(es));
        assert forall|i: int|
            0 <= i < es.len() && !layout_pass::is_complete(
                layout_pass::shared_slots(#[trigger] es[i]),
            ) implies now.contains(
            "incomplete shared expert layer="@ + text::decimal(es[i].layer as nat)
                + layout_pass::slots_text(layout_pass::shared_slots(es[i])),
        ) by {
            let w = "incomplete shared expert layer="@ + text::decimal(es[i].layer as nat)
                + layout_pass::slots_text(layout_pass::shared_slots(es[i]));
            if i < front.len() {
                assert(front[i] == es[i]);
                assert(was.contains(w));
                let k = choose|k: int| 0 <= k < was.len() && was[k] == w;
                assert(now[k] == w);
            } else {
                assert(now[now.len() - 1] == w);
            }
        }
    }
}

/// Each packed layer that lacks one of its two tensors is warned of, with its layer,
/// and no other is.
pub proof fn incomplete_packed_layers_are_warned_of(es: Seq<PackedExpertLayerEntry>)
    ensures
        layout_pass::packed_warnings(es).len() == es.filter(
            |e: PackedExpertLayerEntry| e.gate_up is None || e.down is None,
        ).len(),
        forall|i: int|
            0 <= i < es.len() && ((#[trigger] es[i]).gate_up is None || es[i].down is None)
                ==> layout_pass::packed_warnings(es).contains(
                "incomplete packed expert layer="@ + text::decimal(es[i].layer as nat)
                    + " gate_up="@ + layout_pass::bool_text(es[i].gate_up is Some) + " down="@
                    + layout_pass::bool_text(es[i].down is Some),
            ),
    decreases es.len(),
{
    reveal(Seq::filter);
    if es.len() > 0 {
        let front = es.drop_last();
        incomplete_packed_layers_are_warned_of(front);
        let (was, now) = (layout_pass::packed_warnings(front), layout_pass::packed_warnings(es));
        assert forall|i: int|
            0 <= i < es.len() && ((#[trigger] es[i]).gate_up is None
                || es[i].down is None) implies now.contains(
            "incomplete packed expert layer="@ + text::decimal(es[i].layer as nat) + " gate_up="@
                + layout_pass::bool_text(es[i].gate_up is Some) + " down="@
                + layout_pass::bool_text(es[i].down is Some),
        ) by {
            let w = "incomplete packed expert layer="@ + text::decimal(es[i].layer as nat)
                + " gate_up="@ + layout_pass::bool_text(es[i].gate_up is Some) + " down="@
                + layout_pass::bool_text(es[i].down is Some);
            if i < front.len() {
                assert(front[i] == es[i]);
                assert(was.contains(w));
                let k = choose|k: int| 0 <= k < was.len() && was[k] == w;
                assert(now[k] == w);
            } else {
                assert(now[now.len() - 1] == w);
            }
        }
    }
}

/// Which projections are there is said of each by its name.
pub proof fn projections_are_listed(s: Slots)
    ensures
        text::contains_text(
            layout_pass::slots_text(s),
            " gate="@ + layout_pass::bool_text(s.gate is Some),
        ),
        text::contains_text(
            layout_pass::slots_text(s),
            " up="@ + layout_pass::bool_text(s.up is Some),
        ),
        text::contains_text(
            layout_pass::slots_text(s),
            " gate_up="@ + layout_pass::bool_text(s.gate_up is Some),
        ),
        text::contains_text(
            layout_pass::slots_text(s),
            " down="@ + layout_pass::bool_text(s.down is Some),
        ),
        forall|b: bool| #[trigger] layout_pass::bool_text(b) == "true"@ <==> b,
        forall|b: bool| #[trigger] layout_pass::bool_text(b) == "false"@ <==> !b,
{
    reveal_strlit("true");
    reveal_strlit("false");
    assert("true"@.len() != "false"@.len());
    let none = Seq::<char>::empty();
    let a = " gate="@ + layout_pass::bool_text(s.gate is Some);
    let b = " up="@ + layout_pass::bool_text(s.up is Some);
    let c = " gate_up="@ + layout_pass::bool_text(s.gate_up is Some);
    let d = " down="@ + layout_pass::bool_text(s.down is Some);
    let t = layout_pass::slots_text(s);
    assert(t == none + a + (b + c + d));
    text::middles_are_contained(none, a, b + c + d);
    assert(t == a + b + (c + d));
    text::middles_are_contained(a, b, c + d);
    assert(t == a + b + c + d);
    text::middles_are_contained(a + b, c, d);
    assert(t == a + b + c + d + none);
    text::middles_are_contained(a + b + c, d, none);
}

/// A number that a configuration does not give counts as zero.
pub proof fn absent_numbers_are_zero(n: u32)
    ensures
        layout_pass::or_zero(None) == 0,
        layout_pass::or_zero(Some(n)) == n,
{
}

/// A layout starts with no tensor, no warning and no packed layer.
pub proof fn layouts_start_empty(layer: u32)
    ensures
        layout_pass::nothing().experts.dom() == Set::<ExpertKey>::empty(),
        !layout_pass::nothing().packed.contains_key(layer),
        !layout_pass::nothing().shared.contains_key(layer),
        !layout_pass::nothing().routers.contains_key(layer),
        layout_pass::nothing().unknown.len() == 0,
        layout_pass::nothing().warnings.len() == 0,
        !layout_pass::nothing().saw_packed,
{
}

} // verus!
