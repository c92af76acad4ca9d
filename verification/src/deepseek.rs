//! Finding the tensors of one mixture-of-experts layer in the parsed metadata of
//! a DeepSeek checkpoint.

use crate::error;
use crate::error::CudaError;
use crate::quant;
use crate::text;
use vstd::prelude::*;
use vstd::string::*;

verus! {

/// The dimensions of a model.
#[derive(Debug, Clone)]
pub struct LayoutJson {
    pub num_layers: usize,
    pub hidden_size: usize,
    pub intermediate_size: usize,
    pub num_experts: usize,
    pub top_k: usize,
    pub dtype: String,
}

/// A tensor of an expert.
#[derive(Debug, Clone)]
pub struct ExpertTensorEntry {
    pub name: String,
    pub layer_id: Option<usize>,
    pub expert_id: Option<Option<usize>>,
    pub tensor_kind: String,
    pub shape: Vec<usize>,
    pub dtype: String,
    pub byte_length: usize,
    pub source_file: String,
    pub storage_dtype: Option<String>,
    pub logical_dtype: Option<String>,
    pub scale_tensor_name: Option<String>,
    pub scale_dtype: Option<String>,
    pub logical_shape: Option<Vec<usize>>,
    pub block_size: Option<usize>,
    pub packed_values_per_byte: Option<usize>,
}

/// How the experts are stored, and their tensors.
#[derive(Debug, Clone)]
pub struct ExpertLayoutJson {
    pub layout_kind: String,
    pub tensors: Vec<ExpertTensorEntry>,
}

/// A tensor of a router.
#[derive(Debug, Clone)]
pub struct RouterTensorEntry {
    pub name: String,
    pub layer_id: Option<usize>,
    pub shape: Vec<usize>,
    pub dtype: String,
}

/// The tensors of the routers.
#[derive(Debug, Clone)]
pub struct RouterLayoutJson {
    pub routers: Vec<RouterTensorEntry>,
}

/// All that was parsed of a checkpoint.
#[derive(Debug, Clone)]
pub struct ParserMetadata {
    pub layout: LayoutJson,
    pub expert_layout: ExpertLayoutJson,
    pub router_layout: RouterLayoutJson,
}

/// Which stack of blocks a layer belongs to.
#[derive(Debug, Clone, Copy, PartialEq, Eq, Structural)]
pub enum BlockFamily {
    Decoder,
    Mtp,
}

impl BlockFamily {
    /// The variant's name.
    pub open spec fn spec_name(self) -> Seq<char> {
        match self {
            BlockFamily::Decoder => "Decoder"@,
            BlockFamily::Mtp => "Mtp"@,
        }
    }

    /// The variant's name.
    pub fn name(&self) -> (s: &'static str)
        ensures
            s@ == self.spec_name(),
    {
        match self {
            BlockFamily::Decoder => "Decoder",
            BlockFamily::Mtp => "Mtp",
        }
    }

    /// The name by which reports and flags know the family.
    pub open spec fn spec_label(self) -> Seq<char> {
        match self {
            BlockFamily::Decoder => "decoder"@,
            BlockFamily::Mtp => "mtp"@,
        }
    }

    /// The name by which reports and flags know the family.
    pub fn label(&self) -> (s: &'static str)
        ensures
            s@ == self.spec_label(),
    {
        match self {
            BlockFamily::Decoder => "decoder",
            BlockFamily::Mtp => "mtp",
        }
    }

    /// The prefix of the family's tensor names.
    pub open spec fn spec_prefix(self) -> Seq<char> {
        match self {
            BlockFamily::Decoder => "layers."@,
            BlockFamily::Mtp => "mtp."@,
        }
    }

    fn prefix(&self) -> (s: &'static str)
        ensures
            s@ == self.spec_prefix(),
    {
        match self {
            BlockFamily::Decoder => "layers.",
            BlockFamily::Mtp => "mtp.",
        }
    }
}

// ---------------------------------------------------------------------------
// Layer and layout
// ---------------------------------------------------------------------------

/// The layer is beyond the last one.
pub open spec fn layer_fault(meta: ParserMetadata, layer: usize) -> Option<error::Fault> {
    if layer >= meta.layout.num_layers {
        Some(
            error::invalid(
                error::Source::Deepseek,
                "validate layer id"@,
                quant::two_number_text(
                    "layer "@,
                    layer as nat,
                    " out of range: num_layers="@,
                    meta.layout.num_layers as nat,
                ),
            ),
        )
    } else {
        None
    }
}

/// Checks that the model has the layer.
pub fn validate_layer(meta: &ParserMetadata, layer: usize) -> (r: Result<(), CudaError>)
    ensures
        match r {
            Ok(_) => layer_fault(*meta, layer) is None,
            Err(e) => layer_fault(*meta, layer) == Some(e@),
        },
{
    if layer >= meta.layout.num_layers {
        return Err(
            error::raise_invalid(
                error::Source::Deepseek,
                "validate layer id",
                quant::two_number_message(
                    "layer ",
                    layer,
                    " out of range: num_layers=",
                    meta.layout.num_layers,
                ),
            ),
        );
    }
    Ok(())
}

/// The experts are not stored one by one.
pub open spec fn layout_fault(kind: Seq<char>) -> Option<error::Fault> {
    if kind == "explicit_experts"@ {
        None
    } else if kind == "packed_experts"@ {
        Some(
            error::unsupported(
                error::Source::Deepseek,
                "require explicit_experts layout"@,
                "packed_experts requires explicit slicing metadata; refusing to guess offsets"@,
            ),
        )
    } else {
        Some(
            error::unsupported(
                error::Source::Deepseek,
                "require explicit_experts layout"@,
                "unsupported layout_kind '"@ + kind + "': only explicit_experts is supported"@,
            ),
        )
    }
}

/// Checks that the experts are stored one by one.
pub fn require_explicit_experts(meta: &ParserMetadata) -> (r: Result<(), CudaError>)
    ensures
        match r {
            Ok(_) => layout_fault(meta.expert_layout.layout_kind@) is None,
            Err(e) => layout_fault(meta.expert_layout.layout_kind@) == Some(e@),
        },
{
    let kind = meta.expert_layout.layout_kind.as_str();
    if text::text_eq(kind, "explicit_experts") {
        return Ok(());
    }
    if text::text_eq(kind, "packed_experts") {
        let m =
            "packed_experts requires explicit slicing metadata; refusing to guess offsets".to_owned();
        return Err(
            error::raise_unsupported(
                error::Source::Deepseek,
                "require explicit_experts layout",
                m,
            ),
        );
    }
    let mut m = "unsupported layout_kind '".to_owned();
    m.append(kind);
    m.append("': only explicit_experts is supported");
    Err(error::raise_unsupported(error::Source::Deepseek, "require explicit_experts layout", m))
}

/// The name of a router tensor of a layer.
pub open spec fn router_name(leaf: Seq<char>, layer: usize, family: BlockFamily) -> Seq<char> {
    family.spec_prefix() + text::decimal(layer as nat) + "."@ + leaf
}

/// The name of a router tensor of a layer.
pub fn router_name_for_layer(leaf: &str, layer: usize, block_family: BlockFamily) -> (s: String)
    ensures
        s@ == router_name(leaf@, layer, block_family),
{
    let mut s = block_family.prefix().to_owned();
    text::push_usize(&mut s, layer);
    s.append(".");
    s.append(leaf);
    s
}

/// The tensor belongs to the family: names of the `Mtp` family have a part `mtp`
/// between their dots, others have none.
pub open spec fn in_family(name: Seq<char>, family: BlockFamily) -> bool {
    let has_mtp = text::split_on(name, '.').contains("mtp"@);
    match family {
        BlockFamily::Decoder => !has_mtp,
        BlockFamily::Mtp => has_mtp,
    }
}

/// Whether the tensor belongs to the family.
pub fn matches_block_family(name: &str, family: BlockFamily) -> (yes: bool)
    ensures
        yes == in_family(name@, family),
{
    let parts = text::split_text(name, '.');
    let has_mtp = text::list_contains(parts.as_slice(), "mtp");
    match family {
        BlockFamily::Decoder => !has_mtp,
        BlockFamily::Mtp => has_mtp,
    }
}

/// No tensor belongs to both families, and each belongs to one.
pub proof fn families_part_names(name: Seq<char>)
    ensures
        in_family(name, BlockFamily::Decoder) != in_family(name, BlockFamily::Mtp),
{
}

// ---------------------------------------------------------------------------
// Router
// ---------------------------------------------------------------------------

/// The name and element type of a router's weight tensor.
#[derive(Debug, Clone)]
pub struct RouterTensorInfo {
    pub name: String,
    pub dtype: String,
}

/// The tensor is a router tensor of the layer. The hyper-connection tensors,
/// which share its prefix, are not.
pub open spec fn is_router(r: RouterTensorEntry, layer: usize, family: BlockFamily) -> bool {
    r.layer_id == Some(layer) && in_family(r.name@, family) && !text::contains_text(
        r.name@,
        "hc_ffn_"@,
    )
}

/// The tensor is the weight of a router of the layer.
pub open spec fn is_router_weight(r: RouterTensorEntry, layer: usize, family: BlockFamily) -> bool {
    is_router(r, layer, family) && text::ends_with_text(r.name@, "gate.weight"@)
}

/// The router tensors of the layer, in order.
pub open spec fn routers_of(
    routers: Seq<RouterTensorEntry>,
    layer: usize,
    family: BlockFamily,
) -> Seq<RouterTensorEntry>
    decreases routers.len(),
{
    if routers.len() == 0 {
        Seq::empty()
    } else {
        let front = routers_of(routers.drop_last(), layer, family);
        if is_router(routers.last(), layer, family) {
            front.push(routers.last())
        } else {
            front
        }
    }
}

/// The router weights of the layer, in order.
pub open spec fn router_weights_of(
    routers: Seq<RouterTensorEntry>,
    layer: usize,
    family: BlockFamily,
) -> Seq<RouterTensorEntry>
    decreases routers.len(),
{
    if routers.len() == 0 {
        Seq::empty()
    } else {
        let front = router_weights_of(routers.drop_last(), layer, family);
        if is_router_weight(routers.last(), layer, family) {
            front.push(routers.last())
        } else {
            front
        }
    }
}

/// How `str`'s `Debug` form quotes a text. The form escapes characters by
/// Unicode tables; it is a function of the text alone.
pub uninterp spec fn debug_quoted(s: Seq<char>) -> Seq<char>;

/// The `Debug` form of a `str`, as `{:?}` writes it: the text in quotation marks,
/// with escapes. Which characters are escaped is not stated.
#[verifier::external_body]
fn debug_quote(s: &str) -> (q: String)
    ensures
        q@ == debug_quoted(s@),
{
    format!("{:?}", s)
}

/// The texts, quoted, with commas between them.
pub open spec fn quoted_list(names: Seq<Seq<char>>) -> Seq<char>
    decreases names.len(),
{
    if names.len() == 0 {
        Seq::empty()
    } else if names.len() == 1 {
        debug_quoted(names[0])
    } else {
        quoted_list(names.drop_last()) + ", "@ + debug_quoted(names.last())
    }
}

/// Numbers with commas between them.
pub open spec fn number_list(ns: Seq<usize>) -> Seq<char>
    decreases ns.len(),
{
    if ns.len() == 0 {
        Seq::empty()
    } else if ns.len() == 1 {
        text::decimal(ns[0] as nat)
    } else {
        number_list(ns.drop_last()) + ", "@ + text::decimal(ns.last() as nat)
    }
}

/// Writes numbers with commas between them.
pub fn number_list_text(ns: &[usize]) -> (s: String)
    ensures
        s@ == number_list(ns@),
{
    let mut s = String::new();
    let mut i: usize = 0;
    assert(ns@.take(0) == Seq::<usize>::empty());
    while i < ns.len()
        invariant
            i <= ns@.len(),
            s@ == number_list(ns@.take(i as int)),
        decreases ns@.len() - i,
    {
        proof {
            let t = ns@.take(i + 1);
            assert(t.drop_last() == ns@.take(i as int));
            if i == 0 {
                assert(Seq::<char>::empty() + text::decimal(ns@[0] as nat) == text::decimal(
                    ns@[0] as nat,
                ));
            }
        }
        if i > 0 {
            s.append(", ");
        }
        text::push_usize(&mut s, ns[i]);
        i = i + 1;
    }
    assert(ns@.take(i as int) == ns@);
    s
}

/// The names of router tensors.
pub open spec fn router_names(rs: Seq<RouterTensorEntry>) -> Seq<Seq<char>> {
    rs.map_values(|r: RouterTensorEntry| r.name@)
}

/// What is wrong with looking for the router of a layer.
pub open spec fn router_fault(meta: ParserMetadata, layer: usize, family: BlockFamily) -> Option<
    error::Fault,
> {
    let routers = meta.router_layout.routers@;
    let weights = router_weights_of(routers, layer, family);
    let r = weights[0];
    if routers_of(routers, layer, family).len() == 0 {
        Some(
            error::invalid(
                error::Source::Deepseek,
                "find router tensor"@,
                "no router tensor found for layer "@ + text::decimal(layer as nat)
                    + " and block family "@ + family.spec_name(),
            ),
        )
    } else if weights.len() > 1 {
        Some(
            error::invalid(
                error::Source::Deepseek,
                "find router tensor"@,
                text::decimal(weights.len()) + " router tensors found for layer "@ + text::decimal(
                    layer as nat,
                ) + " and block family "@ + family.spec_name() + ": ["@ + quoted_list(
                    router_names(weights),
                ) + "] — ambiguous"@,
            ),
        )
    } else if r.shape@.len() != 2 {
        Some(
            error::invalid(
                error::Source::Deepseek,
                "validate router tensor shape"@,
                "router tensor '"@ + r.name@ + "' has shape ["@ + number_list(r.shape@)
                    + "], expected [num_experts, hidden_size]"@,
            ),
        )
    } else if r.shape@[0] != meta.layout.num_experts {
        Some(
            error::invalid(
                error::Source::Deepseek,
                "validate router tensor shape"@,
                "router tensor '"@ + r.name@ + "' expert dim "@ + text::decimal(r.shape@[0] as nat)
                    + " != num_experts "@ + text::decimal(meta.layout.num_experts as nat),
            ),
        )
    } else if r.shape@[1] != meta.layout.hidden_size {
        Some(
            error::invalid(
                error::Source::Deepseek,
                "validate router tensor shape"@,
                "router tensor '"@ + r.name@ + "' hidden dim "@ + text::decimal(r.shape@[1] as nat)
                    + " != hidden_size "@ + text::decimal(meta.layout.hidden_size as nat),
            ),
        )
    } else {
        None
    }
}

fn router_dim_error(name: &str, dim: &str, got: usize, what: &str, want: usize) -> (e: CudaError)
    ensures
        e@ == error::invalid(
            error::Source::Deepseek,
            "validate router tensor shape"@,
            "router tensor '"@ + name@ + dim@ + text::decimal(got as nat) + what@ + text::decimal(
                want as nat,
            ),
        ),
{
    let mut m = "router tensor '".to_owned();
    m.append(name);
    m.append(dim);
    text::push_usize(&mut m, got);
    m.append(what);
    text::push_usize(&mut m, want);
    error::raise_invalid(error::Source::Deepseek, "validate router tensor shape", m)
}

/// The one router weight tensor of a layer. There must be one where the layer has
/// router tensors at all.
pub fn find_router_tensor(meta: &ParserMetadata, layer: usize, block_family: BlockFamily) -> (r:
    Result<RouterTensorInfo, CudaError>)
    requires
        routers_of(meta.router_layout.routers@, layer, block_family).len() > 0
            ==> router_weights_of(meta.router_layout.routers@, layer, block_family).len() > 0,
    ensures
        match r {
            Ok(info) => {
                let w = router_weights_of(meta.router_layout.routers@, layer, block_family)[0];
                &&& router_fault(*meta, layer, block_family) is None
                &&& info.name@ == w.name@
                &&& info.dtype@ == w.dtype@
            },
            Err(e) => router_fault(*meta, layer, block_family) == Some(e@),
        },
{
    let routers = &meta.router_layout.routers;
    let ghost all = routers@;
    let mut found: usize = 0;
    let mut weights: Vec<usize> = Vec::new();
    let mut names = String::new();
    let mut i: usize = 0;
    assert(all.take(0) == Seq::<RouterTensorEntry>::empty());
    while i < routers.len()
        invariant
            i <= routers@.len(),
            all == routers@,
            found <= i,
            weights@.len() <= i,
            found == routers_of(all.take(i as int), layer, block_family).len(),
            weights@.len() == router_weights_of(all.take(i as int), layer, block_family).len(),
            forall|k: int|
                0 <= k < weights@.len() ==> (#[trigger] weights@[k]) < i && all[weights@[k] as int]
                    == router_weights_of(all.take(i as int), layer, block_family)[k],
            names@ == quoted_list(
                router_names(router_weights_of(all.take(i as int), layer, block_family)),
            ),
        decreases routers@.len() - i,
    {
        let r = &routers[i];
        let ghost front = router_weights_of(all.take(i as int), layer, block_family);
        assert(all.take(i + 1).drop_last() == all.take(i as int));
        let of_layer = match r.layer_id {
            Some(l) => l == layer,
            None => false,
        };
        if of_layer && matches_block_family(r.name.as_str(), block_family) && !text::text_contains(
            r.name.as_str(),
            "hc_ffn_",
        ) {
            found = found + 1;
            if text::text_ends_with(r.name.as_str(), "gate.weight") {
                if weights.len() > 0 {
                    names.append(", ");
                }
                let quoted = debug_quote(r.name.as_str());
                names.append(quoted.as_str());
                proof {
                    let now = router_names(front.push(*r));
                    assert(now.drop_last() == router_names(front));
                    if front.len() == 0 {
                        assert(Seq::<char>::empty() + quoted@ == quoted@);
                    }
                }
                weights.push(i);
            }
        }
        i = i + 1;
    }
    assert(all.take(i as int) == all);
    if found == 0 {
        let mut m = "no router tensor found for layer ".to_owned();
        text::push_usize(&mut m, layer);
        m.append(" and block family ");
        m.append(block_family.name());
        return Err(error::raise_invalid(error::Source::Deepseek, "find router tensor", m));
    }
    if weights.len() > 1 {
        let mut m = text::decimal_text(weights.len() as u64);
        m.append(" router tensors found for layer ");
        text::push_usize(&mut m, layer);
        m.append(" and block family ");
        m.append(block_family.name());
        m.append(": [");
        m.append(names.as_str());
        m.append("] — ambiguous");
        return Err(error::raise_invalid(error::Source::Deepseek, "find router tensor", m));
    }
    let rt = &routers[weights[0]];
    if rt.shape.len() != 2 {
        let mut m = "router tensor '".to_owned();
        m.append(rt.name.as_str());
        m.append("' has shape [");
        let dims = number_list_text(rt.shape.as_slice());
        m.append(dims.as_str());
        m.append("], expected [num_experts, hidden_size]");
        return Err(error::raise_invalid(error::Source::Deepseek, "validate router tensor shape", m));
    }
    if rt.shape[0] != meta.layout.num_experts {
        return Err(
            router_dim_error(
                rt.name.as_str(),
                "' expert dim ",
                rt.shape[0],
                " != num_experts ",
                meta.layout.num_experts,
            ),
        );
    }
    if rt.shape[1] != meta.layout.hidden_size {
        return Err(
            router_dim_error(
                rt.name.as_str(),
                "' hidden dim ",
                rt.shape[1],
                " != hidden_size ",
                meta.layout.hidden_size,
            ),
        );
    }
    Ok(RouterTensorInfo { name: rt.name.clone(), dtype: rt.dtype.clone() })
}

// ---------------------------------------------------------------------------
// Experts
// ---------------------------------------------------------------------------

/// The three weight tensors of an expert.
#[derive(Debug, Clone)]
pub struct ExpertTensorSet {
    pub gate_name: String,
    pub up_name: String,
    pub down_name: String,
}

/// The tensor belongs to the expert of the layer and has the kind.
pub open spec fn is_part(
    t: ExpertTensorEntry,
    layer: usize,
    expert: usize,
    family: BlockFamily,
    kind: Seq<char>,
) -> bool {
    t.layer_id == Some(layer) && in_family(t.name@, family) && t.expert_id == Some(Some(expert))
        && t.tensor_kind@ == kind
}

/// The position of the expert's last tensor of a kind.
pub open spec fn last_part(
    tensors: Seq<ExpertTensorEntry>,
    layer: usize,
    expert: usize,
    family: BlockFamily,
    kind: Seq<char>,
) -> Option<int>
    decreases tensors.len(),
{
    if tensors.len() == 0 {
        None
    } else if is_part(tensors.last(), layer, expert, family, kind) {
        Some(tensors.len() - 1)
    } else {
        last_part(tensors.drop_last(), layer, expert, family, kind)
    }
}

/// The tensor that is found is of the expert and the kind, and no later one is.
/// Where none is found there is none.
pub proof fn last_part_is_last(
    tensors: Seq<ExpertTensorEntry>,
    layer: usize,
    expert: usize,
    family: BlockFamily,
    kind: Seq<char>,
)
    ensures
        match last_part(tensors, layer, expert, family, kind) {
            Some(at) => {
                &&& 0 <= at < tensors.len()
                &&& is_part(tensors[at], layer, expert, family, kind)
                &&& forall|j: int|
                    at < j < tensors.len() ==> !is_part(
                        #[trigger] tensors[j],
                        layer,
                        expert,
                        family,
                        kind,
                    )
            },
            None => forall|j: int|
                0 <= j < tensors.len() ==> !is_part(
                    #[trigger] tensors[j],
                    layer,
                    expert,
                    family,
                    kind,
                ),
        },
    decreases tensors.len(),
{
    if tensors.len() > 0 && !is_part(tensors.last(), layer, expert, family, kind) {
        let front = tensors.drop_last();
        last_part_is_last(front, layer, expert, family, kind);
        assert forall|j: int| 0 <= j < tensors.len() - 1 implies tensors[j] == front[j] by {}
    }
}

/// The kinds that are missing, as a quoted list.
pub open spec fn missing_text(gate: bool, up: bool, down: bool) -> Seq<char> {
    if gate && up && down {
        "[\"gate\", \"up\", \"down\"]"@
    } else if gate && up {
        "[\"gate\", \"up\"]"@
    } else if gate && down {
        "[\"gate\", \"down\"]"@
    } else if up && down {
        "[\"up\", \"down\"]"@
    } else if gate {
        "[\"gate\"]"@
    } else if up {
        "[\"up\"]"@
    } else {
        "[\"down\"]"@
    }
}

fn missing_list(gate: bool, up: bool, down: bool) -> (s: &'static str)
    ensures
        s@ == missing_text(gate, up, down),
{
    if gate && up && down {
        "[\"gate\", \"up\", \"down\"]"
    } else if gate && up {
        "[\"gate\", \"up\"]"
    } else if gate && down {
        "[\"gate\", \"down\"]"
    } else if up && down {
        "[\"up\", \"down\"]"
    } else if gate {
        "[\"gate\"]"
    } else if up {
        "[\"up\"]"
    } else {
        "[\"down\"]"
    }
}

/// Where the last gate, up and down tensors of an expert stand.
pub open spec fn parts_of(
    meta: ParserMetadata,
    layer: usize,
    expert: usize,
    family: BlockFamily,
) -> (Option<int>, Option<int>, Option<int>) {
    let tensors = meta.expert_layout.tensors@;
    (
        last_part(tensors, layer, expert, family, "gate"@),
        last_part(tensors, layer, expert, family, "up"@),
        last_part(tensors, layer, expert, family, "down"@),
    )
}

/// Some kind of tensor of the expert is missing.
pub open spec fn parts_fault(
    action: Seq<char>,
    meta: ParserMetadata,
    layer: usize,
    expert: usize,
    family: BlockFamily,
) -> Option<error::Fault> {
    let (gate, up, down) = parts_of(meta, layer, expert, family);
    if gate is Some && up is Some && down is Some {
        None
    } else {
        Some(
            error::invalid(
                error::Source::Deepseek,
                action,
                "layer "@ + text::decimal(layer as nat) + " block family "@ + family.spec_name()
                    + " expert "@ + text::decimal(expert as nat) + " missing tensors: "@
                    + missing_text(gate is None, up is None, down is None),
            ),
        )
    }
}

/// The positions of gate, up and down tensors of an expert.
fn find_parts(
    action: &str,
    meta: &ParserMetadata,
    layer: usize,
    expert: usize,
    family: BlockFamily,
) -> (r: Result<(usize, usize, usize), CudaError>)
    ensures
        match r {
            Ok((g, u, d)) => {
                &&& parts_fault(action@, *meta, layer, expert, family) is None
                &&& parts_of(*meta, layer, expert, family) == (
                    Some(g as int),
                    Some(u as int),
                    Some(d as int),
                )
                &&& g < meta.expert_layout.tensors@.len()
                &&& u < meta.expert_layout.tensors@.len()
                &&& d < meta.expert_layout.tensors@.len()
            },
            Err(e) => parts_fault(action@, *meta, layer, expert, family) == Some(e@),
        },
{
    let tensors = &meta.expert_layout.tensors;
    let ghost all = tensors@;
    let mut gate: Option<usize> = None;
    let mut up: Option<usize> = None;
    let mut down: Option<usize> = None;
    let mut i: usize = 0;
    proof {
        reveal_strlit("gate");
        reveal_strlit("up");
        reveal_strlit("down");
        assert("gate"@.len() == 4 && "up"@.len() == 2 && "down"@.len() == 4);
        assert("gate"@[0] == 'g' && "down"@[0] == 'd');
    }
    while i < tensors.len()
        invariant
            i <= tensors@.len(),
            all == tensors@,
            "gate"@ != "up"@,
            "gate"@ != "down"@,
            "up"@ != "down"@,
            last_part(all.take(i as int), layer, expert, family, "gate"@) == index_of(gate),
            last_part(all.take(i as int), layer, expert, family, "up"@) == index_of(up),
            last_part(all.take(i as int), layer, expert, family, "down"@) == index_of(down),
            gate matches Some(g) ==> g < i,
            up matches Some(u) ==> u < i,
            down matches Some(d) ==> d < i,
        decreases tensors@.len() - i,
    {
        let t = &tensors[i];
        assert(all.take(i + 1).drop_last() == all.take(i as int));
        assert(all.take(i + 1).last() == *t);
        let of_layer = match t.layer_id {
            Some(l) => l == layer,
            None => false,
        };
        let of_expert = match t.expert_id {
            Some(Some(id)) => id == expert,
            _ => false,
        };
        if of_layer && of_expert && matches_block_family(t.name.as_str(), family) {
            if text::text_eq(t.tensor_kind.as_str(), "gate") {
                gate = Some(i);
            } else if text::text_eq(t.tensor_kind.as_str(), "up") {
                up = Some(i);
            } else if text::text_eq(t.tensor_kind.as_str(), "down") {
                down = Some(i);
            }
        }
        i = i + 1;
    }
    assert(all.take(i as int) == all);
    match (gate, up, down) {
        (Some(g), Some(u), Some(d)) => Ok((g, u, d)),
        _ => {
            let mut m = "layer ".to_owned();
            text::push_usize(&mut m, layer);
            m.append(" block family ");
            m.append(family.name());
            m.append(" expert ");
            text::push_usize(&mut m, expert);
            m.append(" missing tensors: ");
            m.append(missing_list(gate.is_none(), up.is_none(), down.is_none()));
            Err(error::raise_invalid(error::Source::Deepseek, action, m))
        },
    }
}

spec fn index_of(at: Option<usize>) -> Option<int> {
    match at {
        Some(i) => Some(i as int),
        None => None,
    }
}

/// The names of gate, up and down tensors of an expert. Of several tensors
/// of one kind the last one counts.
pub fn find_expert_tensors(
    meta: &ParserMetadata,
    layer: usize,
    expert_id: usize,
    block_family: BlockFamily,
) -> (r: Result<ExpertTensorSet, CudaError>)
    ensures
        match r {
            Ok(set) => {
                let (g, u, d) = parts_of(*meta, layer, expert_id, block_family);
                let tensors = meta.expert_layout.tensors@;
                &&& parts_fault("find expert tensors"@, *meta, layer, expert_id, block_family) is None
                &&& set.gate_name@ == tensors[g->0].name@
                &&& set.up_name@ == tensors[u->0].name@
                &&& set.down_name@ == tensors[d->0].name@
            },
            Err(e) => parts_fault("find expert tensors"@, *meta, layer, expert_id, block_family)
                == Some(e@),
        },
{
    match find_parts("find expert tensors", meta, layer, expert_id, block_family) {
        Ok((g, u, d)) => {
            let tensors = &meta.expert_layout.tensors;
            Ok(
                ExpertTensorSet {
                    gate_name: tensors[g].name.clone(),
                    up_name: tensors[u].name.clone(),
                    down_name: tensors[d].name.clone(),
                },
            )
        },
        Err(e) => Err(e),
    }
}

/// The weight and scale tensors of an FP4 expert, with their block sizes and
/// logical shapes.
#[derive(Debug, Clone)]
pub struct Fp4ExpertTensorSet {
    pub gate_name: String,
    pub gate_scale_name: String,
    pub up_name: String,
    pub up_scale_name: String,
    pub down_name: String,
    pub down_scale_name: String,
    pub gate_block_size: usize,
    pub up_block_size: usize,
    pub down_block_size: usize,
    pub gate_logical_shape: Vec<usize>,
    pub up_logical_shape: Vec<usize>,
    pub down_logical_shape: Vec<usize>,
}

/// The tensor names no scale tensor.
pub open spec fn no_scale_fault(kind: Seq<char>, t: ExpertTensorEntry) -> error::Fault {
    error::invalid(
        error::Source::Deepseek,
        "find fp4 scale tensor"@,
        kind + " weight '"@ + t.name@ + "' has no scale_tensor_name — not FP4?"@,
    )
}

/// What is wrong with the metadata of an FP4 expert's tensors.
pub open spec fn fp4_metadata_fault(
    gate: ExpertTensorEntry,
    up: ExpertTensorEntry,
    down: ExpertTensorEntry,
) -> Option<error::Fault> {
    if gate.scale_tensor_name is None {
        Some(no_scale_fault("gate"@, gate))
    } else if up.scale_tensor_name is None {
        Some(no_scale_fault("up"@, up))
    } else if down.scale_tensor_name is None {
        Some(no_scale_fault("down"@, down))
    } else if gate.block_size is None || up.block_size is None || down.block_size is None {
        Some(error::invalid(error::Source::Deepseek, "fp4 block_size"@, "missing"@))
    } else if gate.logical_shape is None || up.logical_shape is None || down.logical_shape is None {
        Some(error::invalid(error::Source::Deepseek, "fp4 logical_shape"@, "missing"@))
    } else {
        None
    }
}

/// What is wrong with looking for the FP4 tensors of an expert.
pub open spec fn fp4_parts_fault(
    meta: ParserMetadata,
    layer: usize,
    expert: usize,
    family: BlockFamily,
) -> Option<error::Fault> {
    let (g, u, d) = parts_of(meta, layer, expert, family);
    let tensors = meta.expert_layout.tensors@;
    match parts_fault("find fp4 expert tensors"@, meta, layer, expert, family) {
        Some(f) => Some(f),
        None => fp4_metadata_fault(tensors[g->0], tensors[u->0], tensors[d->0]),
    }
}

fn raise_no_scale(kind: &str, t: &ExpertTensorEntry) -> (e: CudaError)
    ensures
        e@ == no_scale_fault(kind@, *t),
{
    let mut m = kind.to_owned();
    m.append(" weight '");
    m.append(t.name.as_str());
    m.append("' has no scale_tensor_name — not FP4?");
    error::raise_invalid(error::Source::Deepseek, "find fp4 scale tensor", m)
}

fn raise_missing(action: &str) -> (e: CudaError)
    ensures
        e@ == error::invalid(error::Source::Deepseek, action@, "missing"@),
{
    error::raise_invalid(error::Source::Deepseek, action, "missing".to_owned())
}

fn copy_shape(shape: &Vec<usize>) -> (copy: Vec<usize>)
    ensures
        copy@ == shape@,
{
    let copy = shape.clone();
    assert(copy@ == shape@);
    copy
}

/// The name, scale name, block size and logical shape in the set are those of the
/// tensor.
pub open spec fn describes(
    t: ExpertTensorEntry,
    name: String,
    scale_name: String,
    block_size: usize,
    logical_shape: Vec<usize>,
) -> bool {
    &&& name@ == t.name@
    &&& t.scale_tensor_name matches Some(s) && scale_name@ == s@
    &&& t.block_size == Some(block_size)
    &&& t.logical_shape matches Some(l) && logical_shape@ == l@
}

/// The FP4 tensors of an expert, with all that is needed to decode them. Of
/// several tensors of one kind the last one counts.
pub fn find_fp4_expert_tensors(
    meta: &ParserMetadata,
    layer: usize,
    expert_id: usize,
    block_family: BlockFamily,
) -> (r: Result<Fp4ExpertTensorSet, CudaError>)
    ensures
        match r {
            Ok(s) => {
                let (g, u, d) = parts_of(*meta, layer, expert_id, block_family);
                let tensors = meta.expert_layout.tensors@;
                &&& fp4_parts_fault(*meta, layer, expert_id, block_family) is None
                &&& describes(
                    tensors[g->0],
                    s.gate_name,
                    s.gate_scale_name,
                    s.gate_block_size,
                    s.gate_logical_shape,
                )
                &&& describes(
                    tensors[u->0],
                    s.up_name,
                    s.up_scale_name,
                    s.up_block_size,
                    s.up_logical_shape,
                )
                &&& describes(
                    tensors[d->0],
                    s.down_name,
                    s.down_scale_name,
                    s.down_block_size,
                    s.down_logical_shape,
                )
            },
            Err(e) => fp4_parts_fault(*meta, layer, expert_id, block_family) == Some(e@),
        },
{
    let (g, u, d) = match find_parts(
        "find fp4 expert tensors",
        meta,
        layer,
        expert_id,
        block_family,
    ) {
        Ok(at) => at,
        Err(e) => {
            return Err(e);
        },
    };
    let gw = &meta.expert_layout.tensors[g];
    let uw = &meta.expert_layout.tensors[u];
    let dw = &meta.expert_layout.tensors[d];
    let gate_scale_name = match &gw.scale_tensor_name {
        Some(s) => s.clone(),
        None => {
            return Err(raise_no_scale("gate", gw));
        },
    };
    let up_scale_name = match &uw.scale_tensor_name {
        Some(s) => s.clone(),
        None => {
            return Err(raise_no_scale("up", uw));
        },
    };
    let down_scale_name = match &dw.scale_tensor_name {
        Some(s) => s.clone(),
        None => {
            return Err(raise_no_scale("down", dw));
        },
    };
    let (gate_block_size, up_block_size, down_block_size) = match (
        gw.block_size,
        uw.block_size,
        dw.block_size,
    ) {
        (Some(a), Some(b), Some(c)) => (a, b, c),
        _ => {
            return Err(raise_missing("fp4 block_size"));
        },
    };
    match (&gw.logical_shape, &uw.logical_shape, &dw.logical_shape) {
        (Some(a), Some(b), Some(c)) => Ok(
            Fp4ExpertTensorSet {
                gate_name: gw.name.clone(),
                gate_scale_name,
                up_name: uw.name.clone(),
                up_scale_name,
                down_name: dw.name.clone(),
                down_scale_name,
                gate_block_size,
                up_block_size,
                down_block_size,
                gate_logical_shape: copy_shape(a),
                up_logical_shape: copy_shape(b),
                down_logical_shape: copy_shape(c),
            },
        ),
        _ => Err(raise_missing("fp4 logical_shape")),
    }
}

/// Both searches look at the same tensors: an expert whose FP4 tensors are found
/// has its plain tensors found, under the same names.
pub proof fn fp4_search_refines(
    meta: ParserMetadata,
    layer: usize,
    expert: usize,
    family: BlockFamily,
)
    requires
        fp4_parts_fault(meta, layer, expert, family) is None,
    ensures
        parts_fault("find expert tensors"@, meta, layer, expert, family) is None,
{
}

// ---------------------------------------------------------------------------
// Laws
// ---------------------------------------------------------------------------

/// Gate, up and down tensors that are found for an expert are of that kind, of that
/// expert and of its layer and family.
pub proof fn parts_are_of_their_kind(
    meta: ParserMetadata,
    layer: usize,
    expert: usize,
    family: BlockFamily,
)
    ensures
        ({
            let (gate, up, down) = parts_of(meta, layer, expert, family);
            let tensors = meta.expert_layout.tensors@;
            &&& gate matches Some(i) ==> 0 <= i < tensors.len() && is_part(
                tensors[i],
                layer,
                expert,
                family,
                "gate"@,
            )
            &&& up matches Some(i) ==> 0 <= i < tensors.len() && is_part(
                tensors[i],
                layer,
                expert,
                family,
                "up"@,
            )
            &&& down matches Some(i) ==> 0 <= i < tensors.len() && is_part(
                tensors[i],
                layer,
                expert,
                family,
                "down"@,
            )
        }),
{
    let tensors = meta.expert_layout.tensors@;
    last_part_is_last(tensors, layer, expert, family, "gate"@);
    last_part_is_last(tensors, layer, expert, family, "up"@);
    last_part_is_last(tensors, layer, expert, family, "down"@);
}

/// The model has a tensor of the expert and the kind.
pub open spec fn has_part(
    meta: ParserMetadata,
    layer: usize,
    expert: usize,
    family: BlockFamily,
    kind: Seq<char>,
) -> bool {
    exists|i: int|
        0 <= i < meta.expert_layout.tensors@.len() && {
            let t = #[trigger] meta.expert_layout.tensors@[i];
            t.layer_id == Some(layer) && t.expert_id == Some(Some(expert)) && in_family(
                t.name@,
                family,
            ) && t.tensor_kind@ == kind
        }
}

/// An expert's tensors are found exactly when it has a gate, an up and a down
/// tensor.
pub proof fn whole_experts_are_found(
    action: Seq<char>,
    meta: ParserMetadata,
    layer: usize,
    expert: usize,
    family: BlockFamily,
)
    ensures
        parts_fault(action, meta, layer, expert, family) is None <==> has_part(
            meta,
            layer,
            expert,
            family,
            "gate"@,
        ) && has_part(meta, layer, expert, family, "up"@) && has_part(
            meta,
            layer,
            expert,
            family,
            "down"@,
        ),
{
    lemma_has_part(meta, layer, expert, family, "gate"@);
    lemma_has_part(meta, layer, expert, family, "up"@);
    lemma_has_part(meta, layer, expert, family, "down"@);
}

proof fn lemma_has_part(
    meta: ParserMetadata,
    layer: usize,
    expert: usize,
    family: BlockFamily,
    kind: Seq<char>,
)
    ensures
        last_part(meta.expert_layout.tensors@, layer, expert, family, kind) is Some <==> has_part(
            meta,
            layer,
            expert,
            family,
            kind,
        ),
{
    let tensors = meta.expert_layout.tensors@;
    last_part_is_last(tensors, layer, expert, family, kind);
    if has_part(meta, layer, expert, family, kind) {
        let i = choose|i: int|
            0 <= i < tensors.len() && {
                let t = #[trigger] tensors[i];
                t.layer_id == Some(layer) && t.expert_id == Some(Some(expert)) && in_family(
                    t.name@,
                    family,
                ) && t.tensor_kind@ == kind
            };
        assert(is_part(tensors[i], layer, expert, family, kind));
    }
    if let Some(at) = last_part(tensors, layer, expert, family, kind) {
        assert(is_part(tensors[at], layer, expert, family, kind));
    }
}

/// FP4 tensors are found exactly when the expert is whole and each of its last
/// tensors names its scale, its block size and its logical shape.
pub proof fn described_experts_are_found(
    meta: ParserMetadata,
    layer: usize,
    expert: usize,
    family: BlockFamily,
)
    ensures
        ({
            let (gate, up, down) = parts_of(meta, layer, expert, family);
            let tensors = meta.expert_layout.tensors@;
            fp4_parts_fault(meta, layer, expert, family) is None <==> {
                &&& gate is Some && up is Some && down is Some
                &&& forall|i: int|
                    i == gate->0 || i == up->0 || i == down->0 ==> {
                        let t = #[trigger] tensors[i];
                        t.scale_tensor_name is Some && t.block_size is Some && t.logical_shape is Some
                    }
            }
        }),
{
    let (gate, up, down) = parts_of(meta, layer, expert, family);
    let tensors = meta.expert_layout.tensors@;
    let (g, u, d) = (tensors[gate->0], tensors[up->0], tensors[down->0]);
    assert(fp4_metadata_fault(g, u, d) is None <==> g.scale_tensor_name is Some
        && u.scale_tensor_name is Some && d.scale_tensor_name is Some && g.block_size is Some
        && u.block_size is Some && d.block_size is Some && g.logical_shape is Some
        && u.logical_shape is Some && d.logical_shape is Some);
}

/// A layer is accepted exactly when the model has it, and a layout exactly when it
/// stores experts one by one.
pub proof fn layers_and_layouts_accepted(meta: ParserMetadata, layer: usize, kind: Seq<char>)
    ensures
        layer_fault(meta, layer) is None <==> layer < meta.layout.num_layers,
        layout_fault(kind) is None <==> kind == "explicit_experts"@,
        layer_fault(meta, layer) matches Some(f) ==> f.kind == error::CudaErrorKind::InvalidInput,
        layout_fault(kind) matches Some(f) ==> f.kind == error::CudaErrorKind::Unsupported,
{
}

/// The router tensors of a layer are those of its layer and family that are not
/// hyper-connections, and its weights are those of them whose name ends so, in
/// order.
pub proof fn routers_are_picked(
    routers: Seq<RouterTensorEntry>,
    layer: usize,
    family: BlockFamily,
)
    ensures
        routers_of(routers, layer, family) == routers.filter(
            |r: RouterTensorEntry|
                r.layer_id == Some(layer) && in_family(r.name@, family) && !text::contains_text(
                    r.name@,
                    "hc_ffn_"@,
                ),
        ),
        router_weights_of(routers, layer, family) == routers.filter(
            |r: RouterTensorEntry|
                r.layer_id == Some(layer) && in_family(r.name@, family) && !text::contains_text(
                    r.name@,
                    "hc_ffn_"@,
                ) && text::ends_with_text(r.name@, "gate.weight"@),
        ),
    decreases routers.len(),
{
    reveal(Seq::filter);
    if routers.len() > 0 {
        routers_are_picked(routers.drop_last(), layer, family);
    }
}

/// A router is found exactly when the layer has one router weight, with one row
/// for each expert and one column for each hidden element.
pub proof fn routers_are_found(meta: ParserMetadata, layer: usize, family: BlockFamily)
    requires
        routers_of(meta.router_layout.routers@, layer, family).len() > 0 ==> router_weights_of(
            meta.router_layout.routers@,
            layer,
            family,
        ).len() > 0,
    ensures
        ({
            let weights = router_weights_of(meta.router_layout.routers@, layer, family);
            router_fault(meta, layer, family) is None <==> weights.len() == 1 && weights[0].shape@
                == seq![meta.layout.num_experts, meta.layout.hidden_size]
        }),
{
    let weights = router_weights_of(meta.router_layout.routers@, layer, family);
    lemma_weights_are_routers(meta.router_layout.routers@, layer, family);
    let want = seq![meta.layout.num_experts, meta.layout.hidden_size];
    assert(want.len() == 2 && want[0] == meta.layout.num_experts && want[1]
        == meta.layout.hidden_size);
    if weights.len() == 1 && weights[0].shape@.len() == 2 && weights[0].shape@[0]
        == meta.layout.num_experts && weights[0].shape@[1] == meta.layout.hidden_size {
        assert(weights[0].shape@ == want);
    }
}

proof fn lemma_weights_are_routers(
    routers: Seq<RouterTensorEntry>,
    layer: usize,
    family: BlockFamily,
)
    ensures
        router_weights_of(routers, layer, family).len() <= routers_of(routers, layer, family).len(),
    decreases routers.len(),
{
    if routers.len() > 0 {
        lemma_weights_are_routers(routers.drop_last(), layer, family);
    }
}

/// A tensor belongs to the prediction stack exactly when `mtp` stands between two
/// dots of its name, or at one of its ends.
pub proof fn families_go_by_parts(name: Seq<char>)
    ensures
        in_family(name, BlockFamily::Mtp) <==> text::split_on(name, '.').contains("mtp"@),
        in_family(name, BlockFamily::Decoder) <==> !text::split_on(name, '.').contains("mtp"@),
{
}

/// The names of a layer's tensors begin with the prefix of its family and end with
/// the leaf.
pub proof fn names_hold_their_leaf(leaf: Seq<char>, layer: usize, family: BlockFamily)
    ensures
        text::ends_with_text(router_name(leaf, layer, family), leaf),
        text::occurs_at(router_name(leaf, layer, family), family.spec_prefix(), 0),
        text::occurs_at(
            router_name(leaf, layer, family),
            text::decimal(layer as nat) + "."@,
            family.spec_prefix().len() as int,
        ),
        family == BlockFamily::Mtp ==> family.spec_prefix() == "mtp."@,
        family == BlockFamily::Decoder ==> family.spec_prefix() == "layers."@,
{
    let name = router_name(leaf, layer, family);
    let p = family.spec_prefix();
    let d = text::decimal(layer as nat) + "."@;
    assert(name == p + d + leaf);
    assert(name.subrange(name.len() - leaf.len(), name.len() as int) == leaf);
    assert(name.subrange(0, p.len() as int) == p);
    assert(name.subrange(p.len() as int, (p.len() + d.len()) as int) == d);
}

/// The families go by these two names.
pub proof fn families_have_names(family: BlockFamily)
    ensures
        family.spec_label() == "mtp"@ <==> family is Mtp,
        family.spec_label() == "decoder"@ <==> family is Decoder,
{
    reveal_strlit("mtp");
    reveal_strlit("decoder");
    assert("mtp"@.len() != "decoder"@.len());
}

/// Only experts that are stored one by one are taken; any other storage is unsupported,
/// and one that is not known is named.
pub proof fn other_layouts_are_refused(kind: Seq<char>)
    ensures
        layout_fault(kind) is None <==> kind == "explicit_experts"@,
        kind != "explicit_experts"@ ==> layout_fault(kind)->0.kind is Unsupported,
        kind != "explicit_experts"@ && kind != "packed_experts"@ ==> text::contains_text(
            layout_fault(kind)->0.message,
            "'"@ + kind + "'"@,
        ),
{
    if kind != "explicit_experts"@ && kind != "packed_experts"@ {
        reveal_strlit("unsupported layout_kind '");
        reveal_strlit("': only explicit_experts is supported");
        reveal_strlit("'");
        let (a, b) = ("unsupported layout_kind '"@, "': only explicit_experts is supported"@);
        assert(a.subrange(a.len() - 1, a.len() as int) == "'"@);
        assert(b.subrange(0, 1) == "'"@);
        let none = Seq::<char>::empty();
        assert(none + a + kind + b == layout_fault(kind)->0.message);
        text::rows_are_there(none, a, kind, b, "'"@, "'"@);
    }
}

/// The variants go by their names.
pub proof fn variants_have_names(family: BlockFamily)
    ensures
        family.spec_name() == "Mtp"@ <==> family is Mtp,
        family.spec_name() == "Decoder"@ <==> family is Decoder,
{
    reveal_strlit("Mtp");
    reveal_strlit("Decoder");
    assert("Mtp"@.len() != "Decoder"@.len());
}

/// Each part that is missing is named.
pub proof fn missing_parts_are_named(gate: bool, up: bool, down: bool)
    requires
        gate || up || down,
    ensures
        gate ==> text::contains_text(missing_text(gate, up, down), "gate"@),
        up ==> text::contains_text(missing_text(gate, up, down), "up"@),
        down ==> text::contains_text(missing_text(gate, up, down), "down"@),
        missing_text(gate, up, down).len() == (if gate {
            8int
        } else {
            0
        }) + (if up {
            6int
        } else {
            0
        }) + (if down {
            8int
        } else {
            0
        }),
{
    reveal_strlit("gate");
    reveal_strlit("up");
    reveal_strlit("down");
    reveal_strlit("[\"gate\", \"up\", \"down\"]");
    reveal_strlit("[\"gate\", \"up\"]");
    reveal_strlit("[\"gate\", \"down\"]");
    reveal_strlit("[\"up\", \"down\"]");
    reveal_strlit("[\"gate\"]");
    reveal_strlit("[\"up\"]");
    reveal_strlit("[\"down\"]");
    let s = missing_text(gate, up, down);
    let at_up: int = if gate {
        10
    } else {
        2
    };
    let at_down: int = if gate && up {
        16
    } else if gate {
        10
    } else if up {
        8
    } else {
        2
    };
    if gate {
        assert(s.subrange(2, 6) == "gate"@);
        assert(text::occurs_at(s, "gate"@, 2));
    }
    if up {
        assert(s.subrange(at_up, at_up + 2) == "up"@);
        assert(text::occurs_at(s, "up"@, at_up));
    }
    if down {
        assert(s.subrange(at_down, at_down + 4) == "down"@);
        assert(text::occurs_at(s, "down"@, at_down));
    }
}

} // verus!
