//! In which format each router and expert is to be stored.

use crate::aot::phase_pass;
use crate::aot::target;
use crate::aot::target::TargetHardware;
use crate::aot::types::{
    ExpertImportance, ExpertImportanceEntry, ExpertTier, PhasePolicy, QuantPlan, QuantPlanEntry,
    RouterEntry,
};
use crate::flags;
use crate::rank;
use crate::text;
use vstd::prelude::*;
use vstd::string::*;

verus! {

/// What an entry of the plan says.
#[verifier::ext_equal]
pub struct EntryFacts {
    pub kind: Seq<char>,
    pub layer: u32,
    pub expert: Option<u32>,
    pub tier: Option<Seq<char>>,
    pub recommended_format: Seq<char>,
    pub reason: Seq<char>,
}

/// What an entry of the plan says.
pub open spec fn entry_facts(e: QuantPlanEntry) -> EntryFacts {
    EntryFacts {
        kind: e.kind@,
        layer: e.layer,
        expert: e.expert,
        tier: flags::opt_view(e.tier),
        recommended_format: e.recommended_format@,
        reason: e.reason@,
    }
}

/// What the entries of a plan say.
pub open spec fn plan_facts(es: Seq<QuantPlanEntry>) -> Seq<EntryFacts> {
    es.map_values(|e: QuantPlanEntry| entry_facts(e))
}

// ---------------------------------------------------------------------------
// Formats
// ---------------------------------------------------------------------------

/// The format that phase and tier ask for, and why.
pub open spec fn wanted_format(phase: Seq<char>, tier: ExpertTier) -> (Seq<char>, Seq<char>) {
    if phase == "integrity_frontier"@ {
        ("q5"@, "integrity_frontier_protected"@)
    } else if phase == "steering"@ {
        match tier {
            ExpertTier::Hot => ("q5"@, "steering_hot_expert"@),
            ExpertTier::Warm => ("q4"@, "steering_warm_expert"@),
            ExpertTier::Cold => ("q4"@, "steering_cold_expert"@),
        }
    } else if phase == "projection"@ {
        ("q5"@, "projection_layer_protected"@)
    } else if phase == "transport"@ {
        match tier {
            ExpertTier::Hot => ("q4"@, "transport_hot_expert"@),
            ExpertTier::Warm => ("q4"@, "transport_warm_expert"@),
            ExpertTier::Cold => ("iq3"@, "transport_cold_low_precision"@),
        }
    } else {
        ("q4"@, "default_format"@)
    }
}

/// The format for a target that does not run the wanted one: `q4`, else the one
/// that runs best.
pub open spec fn fallback_format(formats: Seq<Seq<char>>) -> Seq<char> {
    if formats.contains("q4"@) || formats.len() == 0 {
        "q4"@
    } else {
        formats[0]
    }
}

/// The format of an expert on a target, and why.
pub open spec fn recommended(phase: Seq<char>, tier: ExpertTier, formats: Seq<Seq<char>>) -> (
    Seq<char>,
    Seq<char>,
) {
    let (format, reason) = wanted_format(phase, tier);
    if formats.contains(format) {
        (format, reason)
    } else {
        (fallback_format(formats), reason + "_target_fallback_from_"@ + format)
    }
}

fn choose_format(phase: &str, tier: &ExpertTier) -> (f: (&'static str, &'static str))
    ensures
        (f.0@, f.1@) == wanted_format(phase@, *tier),
{
    if text::text_eq(phase, "integrity_frontier") {
        ("q5", "integrity_frontier_protected")
    } else if text::text_eq(phase, "steering") {
        match tier {
            ExpertTier::Hot => ("q5", "steering_hot_expert"),
            ExpertTier::Warm => ("q4", "steering_warm_expert"),
            ExpertTier::Cold => ("q4", "steering_cold_expert"),
        }
    } else if text::text_eq(phase, "projection") {
        ("q5", "projection_layer_protected")
    } else if text::text_eq(phase, "transport") {
        match tier {
            ExpertTier::Hot => ("q4", "transport_hot_expert"),
            ExpertTier::Warm => ("q4", "transport_warm_expert"),
            ExpertTier::Cold => ("iq3", "transport_cold_low_precision"),
        }
    } else {
        ("q4", "default_format")
    }
}

/// The format of an expert on a target, and why.
pub fn recommend_format(phase: &str, tier: &ExpertTier, target: &TargetHardware) -> (f: (
    String,
    String,
))
    ensures
        (f.0@, f.1@) == recommended(phase@, *tier, target@.preferred_quant_formats),
{
    let (format, reason) = choose_format(phase, tier);
    let formats = &target.preferred_quant_formats;
    if text::list_contains(formats.as_slice(), format) {
        return (format.to_owned(), reason.to_owned());
    }
    let fallback = if text::list_contains(formats.as_slice(), "q4") || formats.len() == 0 {
        "q4".to_owned()
    } else {
        assert(text::views(formats@)[0] == formats@[0]@);
        formats[0].clone()
    };
    let mut why = reason.to_owned();
    why.append("_target_fallback_from_");
    why.append(format);
    (fallback, why)
}

/// The name of a tier.
pub fn tier_to_string(tier: &ExpertTier) -> (s: String)
    ensures
        s@ == tier.spec_name(),
{
    tier.name().to_owned()
}

// ---------------------------------------------------------------------------
// The plan
// ---------------------------------------------------------------------------

/// The entry of a router. Routers are always stored with eight bits.
pub open spec fn router_entry(layer: u32) -> EntryFacts {
    EntryFacts {
        kind: "router"@,
        layer,
        expert: None,
        tier: None,
        recommended_format: "q8"@,
        reason: "router_precision_sensitive"@,
    }
}

/// The entry of an expert.
pub open spec fn expert_entry(
    e: ExpertImportanceEntry,
    policy: PhasePolicy,
    formats: Seq<Seq<char>>,
) -> EntryFacts {
    let (format, reason) = recommended(phase_pass::phase_in(policy, e.layer), e.tier, formats);
    EntryFacts {
        kind: "expert"@,
        layer: e.layer,
        expert: Some(e.expert),
        tier: Some(e.tier.spec_name()),
        recommended_format: format,
        reason,
    }
}

/// The entries before they are put in order: routers, and behind them experts.
pub open spec fn unordered(
    importance: ExpertImportance,
    policy: PhasePolicy,
    routers: Seq<RouterEntry>,
    formats: Seq<Seq<char>>,
) -> Seq<EntryFacts> {
    routers.map_values(|r: RouterEntry| router_entry(r.layer)) + importance.experts@.map_values(
        |e: ExpertImportanceEntry| expert_entry(e, policy, formats),
    )
}

/// A number that orders entries by layer, within a layer by kind, experts first,
/// and within a kind by expert.
pub open spec fn entry_key(e: EntryFacts) -> i128 {
    (e.layer * 0x4_0000_0000 + if e.kind == "router"@ {
        0x2_0000_0000
    } else {
        0int
    } + match e.expert {
        Some(x) => x + 1,
        None => 0,
    }) as i128
}

/// The keys of entries.
pub open spec fn entry_keys(es: Seq<EntryFacts>) -> Seq<i128> {
    es.map_values(|e: EntryFacts| entry_key(e))
}

/// `sorted` are the entries `es` in the order of their keys. Entries with the same
/// key keep their order.
pub open spec fn in_key_order(sorted: Seq<EntryFacts>, es: Seq<EntryFacts>) -> bool {
    exists|ids: Seq<usize>| #[trigger]
        rank::is_order(ids, entry_keys(es)) && sorted == ids.map_values(|i: usize| es[i as int])
}

fn copy_entry(e: &QuantPlanEntry) -> (c: QuantPlanEntry)
    ensures
        entry_facts(c) == entry_facts(*e),
{
    QuantPlanEntry {
        kind: e.kind.clone(),
        layer: e.layer,
        expert: e.expert,
        tier: match &e.tier {
            Some(t) => Some(t.clone()),
            None => None,
        },
        recommended_format: e.recommended_format.clone(),
        reason: e.reason.clone(),
    }
}

fn sort_entries(es: &Vec<QuantPlanEntry>) -> (sorted: Vec<QuantPlanEntry>)
    ensures
        in_key_order(plan_facts(sorted@), plan_facts(es@)),
{
    let ghost all = plan_facts(es@);
    let mut keys: Vec<i128> = Vec::new();
    let mut i: usize = 0;
    while i < es.len()
        invariant
            i <= es@.len(),
            all == plan_facts(es@),
            keys@ == entry_keys(all).take(i as int),
        decreases es@.len() - i,
    {
        let e = &es[i];
        let kind: i128 = if text::text_eq(e.kind.as_str(), "router") {
            0x2_0000_0000
        } else {
            0
        };
        let expert: i128 = match e.expert {
            Some(x) => x as i128 + 1,
            None => 0,
        };
        let key: i128 = e.layer as i128 * 0x4_0000_0000 + kind + expert;
        assert(all[i as int] == entry_facts(*e));
        assert(key == entry_key(all[i as int]));
        keys.push(key);
        assert(entry_keys(all).take(i + 1) == entry_keys(all).take(i as int).push(key));
        i = i + 1;
    }
    assert(entry_keys(all).take(i as int) == entry_keys(all));
    let ids = rank::order_of(keys.as_slice());
    let mut sorted: Vec<QuantPlanEntry> = Vec::new();
    let mut j: usize = 0;
    let ghost want = ids@.map_values(|i: usize| all[i as int]);
    while j < ids.len()
        invariant
            j <= ids@.len(),
            all == plan_facts(es@),
            rank::is_order(ids@, entry_keys(all)),
            want == ids@.map_values(|i: usize| all[i as int]),
            plan_facts(sorted@) == want.take(j as int),
        decreases ids@.len() - j,
    {
        assert(ids@[j as int] < es@.len());
        let ghost was = sorted@;
        let copy = copy_entry(&es[ids[j]]);
        sorted.push(copy);
        proof {
            assert(plan_facts(sorted@) == plan_facts(was).push(entry_facts(copy)));
            assert(want[j as int] == entry_facts(copy));
            assert(want.take(j + 1) == want.take(j as int).push(want[j as int]));
        }
        j = j + 1;
    }
    assert(want.take(j as int) == want);
    assert(rank::is_order(ids@, entry_keys(all)));
    sorted
}

/// The format of each router and expert, ordered by layer, kind and expert.
pub fn run(
    importance: &ExpertImportance,
    phase_policy: &PhasePolicy,
    routers: &[RouterEntry],
    target: &TargetHardware,
) -> (p: QuantPlan)
    ensures
        p.schema_version == 1,
        in_key_order(
            plan_facts(p.entries@),
            unordered(
                *importance,
                *phase_policy,
                routers@,
                target@.preferred_quant_formats,
            ),
        ),
{
    let ghost formats = target@.preferred_quant_formats;
    let ghost first = routers@.map_values(|r: RouterEntry| router_entry(r.layer));
    let ghost second = importance.experts@.map_values(
        |e: ExpertImportanceEntry| expert_entry(e, *phase_policy, formats),
    );
    let mut entries: Vec<QuantPlanEntry> = Vec::new();
    let mut i: usize = 0;
    while i < routers.len()
        invariant
            i <= routers@.len(),
            first == routers@.map_values(|r: RouterEntry| router_entry(r.layer)),
            plan_facts(entries@) == first.take(i as int),
        decreases routers@.len() - i,
    {
        let ghost was = entries@;
        let entry = QuantPlanEntry {
            kind: "router".to_owned(),
            layer: routers[i].layer,
            expert: None,
            tier: None,
            recommended_format: "q8".to_owned(),
            reason: "router_precision_sensitive".to_owned(),
        };
        entries.push(entry);
        proof {
            assert(plan_facts(entries@) == plan_facts(was).push(entry_facts(entry)));
            assert(first.take(i + 1) == first.take(i as int).push(first[i as int]));
        }
        i = i + 1;
    }
    assert(first.take(i as int) == first);
    let experts = &importance.experts;
    let mut j: usize = 0;
    assert(first + second.take(0) == first);
    while j < experts.len()
        invariant
            j <= experts@.len(),
            experts == importance.experts,
            formats == target@.preferred_quant_formats,
            second == importance.experts@.map_values(
                |e: ExpertImportanceEntry| expert_entry(e, *phase_policy, formats),
            ),
            plan_facts(entries@) == first + second.take(j as int),
        decreases experts@.len() - j,
    {
        let e = &experts[j];
        let ghost was = entries@;
        let phase = phase_pass::phase_for_layer(phase_policy, e.layer);
        let (format, reason) = recommend_format(phase, &e.tier, target);
        let entry = QuantPlanEntry {
            kind: "expert".to_owned(),
            layer: e.layer,
            expert: Some(e.expert),
            tier: Some(tier_to_string(&e.tier)),
            recommended_format: format,
            reason,
        };
        entries.push(entry);
        proof {
            assert(plan_facts(entries@) == plan_facts(was).push(entry_facts(entry)));
            assert(entry_facts(entry) == second[j as int]);
            assert(second.take(j + 1) == second.take(j as int).push(second[j as int]));
            assert(first + second.take(j + 1) == (first + second.take(j as int)).push(
                second[j as int],
            ));
        }
        j = j + 1;
    }
    assert(second.take(j as int) == second);
    QuantPlan { schema_version: 1, entries: sort_entries(&entries) }
}

// ---------------------------------------------------------------------------
// Laws
// ---------------------------------------------------------------------------

/// A plan lists every router and every expert, and nothing else: each entry of the
/// plan is one of them, and each of them is an entry of the plan.
pub proof fn plan_is_complete(sorted: Seq<EntryFacts>, es: Seq<EntryFacts>)
    requires
        in_key_order(sorted, es),
        es.len() <= usize::MAX,
    ensures
        sorted.len() == es.len(),
        forall|i: int| 0 <= i < sorted.len() ==> es.contains(#[trigger] sorted[i]),
        forall|i: int| 0 <= i < es.len() ==> sorted.contains(#[trigger] es[i]),
        forall|i: int, j: int|
            0 <= i < j < sorted.len() ==> entry_key(#[trigger] sorted[i]) <= entry_key(
                #[trigger] sorted[j],
            ),
{
    let ids = choose|ids: Seq<usize>| #[trigger]
        rank::is_order(ids, entry_keys(es)) && sorted == ids.map_values(|i: usize| es[i as int]);
    assert forall|i: int| 0 <= i < sorted.len() implies es.contains(#[trigger] sorted[i]) by {
        assert(ids[i] < es.len());
        assert(es[ids[i] as int] == sorted[i]);
    }
    assert forall|i: int| 0 <= i < es.len() implies sorted.contains(#[trigger] es[i]) by {
        rank::order_is_complete(ids, entry_keys(es), i as usize);
        let j = choose|j: int| 0 <= j < ids.len() && ids[j] == i as usize;
        assert(sorted[j] == es[i]);
    }
    assert forall|i: int, j: int| 0 <= i < j < sorted.len() implies entry_key(#[trigger] sorted[i])
        <= entry_key(#[trigger] sorted[j]) by {
        assert(rank::before(entry_keys(es), ids[i] as int, ids[j] as int));
        assert(ids[i] < es.len() && ids[j] < es.len());
    }
}

/// A router is always stored with eight bits.
pub proof fn routers_get_eight_bits(layer: u32)
    ensures
        router_entry(layer).recommended_format == "q8"@,
{
}

/// An expert is stored in a format that the target runs, whenever the target runs
/// any.
pub proof fn formats_suit_the_target(phase: Seq<char>, tier: ExpertTier, formats: Seq<Seq<char>>)
    requires
        formats.len() > 0,
    ensures
        formats.contains(recommended(phase, tier, formats).0),
{
    if !formats.contains("q4"@) {
        assert(formats.contains(formats[0]));
    }
}

/// On every known target an expert is stored in a format that the target runs.
pub proof fn known_targets_run_their_formats(phase: Seq<char>, tier: ExpertTier, name: Seq<char>)
    ensures
        target::profile_of(name).preferred_quant_formats.contains(
            recommended(phase, tier, target::profile_of(name).preferred_quant_formats).0,
        ),
{
    target::targets_are_usable(name);
    formats_suit_the_target(phase, tier, target::profile_of(name).preferred_quant_formats);
}

/// How many bits a format spends on a weight.
pub open spec fn bits_of(format: Seq<char>) -> nat {
    if format == "q8"@ {
        8
    } else if format == "q5"@ {
        5
    } else if format == "q4"@ || format == "q4_k"@ {
        4
    } else if format == "iq3"@ {
        3
    } else if format == "iq2"@ {
        2
    } else {
        0
    }
}

/// The names of formats and phases differ.
proof fn lemma_names_differ()
    ensures
        "q5"@ != "q4"@,
        "q5"@ != "iq3"@,
        "q4"@ != "iq3"@,
        "q8"@ != "q5"@,
        "q8"@ != "q4"@,
        "q8"@ != "iq3"@,
        "q4_k"@ != "q5"@,
        "q4_k"@ != "q8"@,
        "q4_k"@ != "iq3"@,
        "integrity_frontier"@ != "steering"@,
        "integrity_frontier"@ != "projection"@,
        "integrity_frontier"@ != "transport"@,
        "steering"@ != "projection"@,
        "steering"@ != "transport"@,
        "projection"@ != "transport"@,
        "router"@ != "expert"@,
{
    reveal_strlit("q8");
    reveal_strlit("q5");
    reveal_strlit("q4");
    reveal_strlit("q4_k");
    reveal_strlit("iq3");
    reveal_strlit("integrity_frontier");
    reveal_strlit("steering");
    reveal_strlit("projection");
    reveal_strlit("transport");
    reveal_strlit("router");
    reveal_strlit("expert");
    assert("q8"@[1] == '8' && "q5"@[1] == '5' && "q4"@[1] == '4');
    assert("q8"@.len() == 2 && "q5"@.len() == 2 && "q4"@.len() == 2);
    assert("iq3"@.len() == 3 && "q4_k"@.len() == 4);
    assert("integrity_frontier"@.len() == 18 && "steering"@.len() == 8);
    assert("projection"@.len() == 10 && "transport"@.len() == 9);
    assert("router"@[0] == 'r' && "expert"@[0] == 'e');
}

/// The target runs the formats with five, four and three bits.
pub open spec fn runs_all(formats: Seq<Seq<char>>) -> bool {
    formats.contains("q5"@) && formats.contains("q4"@) && formats.contains("iq3"@)
}

/// How much a tier matters: the hotter, the more.
pub open spec fn heat(tier: ExpertTier) -> nat {
    match tier {
        ExpertTier::Hot => 2,
        ExpertTier::Warm => 1,
        ExpertTier::Cold => 0,
    }
}

/// Within a phase a hotter expert never gets fewer bits than a colder one.
pub proof fn hotter_experts_keep_bits(
    phase: Seq<char>,
    hotter: ExpertTier,
    colder: ExpertTier,
    formats: Seq<Seq<char>>,
)
    requires
        runs_all(formats),
        heat(hotter) >= heat(colder),
    ensures
        bits_of(recommended(phase, hotter, formats).0) >= bits_of(
            recommended(phase, colder, formats).0,
        ),
{
    lemma_names_differ();
}

/// Where a target runs all formats, five bits go to the protected layers, whatever
/// the tier, and to the hot experts of steering layers; three bits go to the cold
/// experts of transport layers alone; all others get four.
pub proof fn bits_go_where_they_matter(phase: Seq<char>, tier: ExpertTier, formats: Seq<Seq<char>>)
    requires
        runs_all(formats),
    ensures
        3 <= bits_of(recommended(phase, tier, formats).0) <= 5,
        bits_of(recommended(phase, tier, formats).0) == 5 <==> (phase == "integrity_frontier"@
            || phase == "projection"@ || (phase == "steering"@ && tier == ExpertTier::Hot)),
        bits_of(recommended(phase, tier, formats).0) == 3 <==> (phase == "transport"@ && tier
            == ExpertTier::Cold),
        recommended(phase, tier, formats).0 == "iq3"@ ==> tier == ExpertTier::Cold,
        ["q5"@, "q4"@, "iq3"@]@.contains(recommended(phase, tier, formats).0),
{
    lemma_names_differ();
    let all = ["q5"@, "q4"@, "iq3"@]@;
    assert(all[0] == "q5"@ && all[1] == "q4"@ && all[2] == "iq3"@);
}

/// A target that runs a format gets it wherever a target that runs all formats
/// does. One that does not gets `q4`, where it runs that, else the one that it
/// runs best.
pub proof fn targets_get_the_next_best(
    phase: Seq<char>,
    tier: ExpertTier,
    formats: Seq<Seq<char>>,
    full: Seq<Seq<char>>,
)
    requires
        runs_all(full),
    ensures
        formats.contains(recommended(phase, tier, full).0) ==> recommended(phase, tier, formats)
            == recommended(phase, tier, full),
        !formats.contains(recommended(phase, tier, full).0) ==> {
            &&& recommended(phase, tier, formats).1 == recommended(phase, tier, full).1
                + "_target_fallback_from_"@ + recommended(phase, tier, full).0
            &&& formats.contains("q4"@) ==> recommended(phase, tier, formats).0 == "q4"@
            &&& !formats.contains("q4"@) && formats.len() > 0 ==> recommended(
                phase,
                tier,
                formats,
            ).0 == formats[0]
            &&& formats.len() == 0 ==> recommended(phase, tier, formats).0 == "q4"@
        },
{
}

/// `s` starts with `head`.
pub open spec fn starts_with(s: Seq<char>, head: Seq<char>) -> bool {
    head.len() <= s.len() && s.take(head.len() as int) == head
}

/// The reason begins with the phase that asked for the format, and goes on with
/// the tier where the tier made a difference.
pub proof fn reasons_name_phase_and_tier(
    phase: Seq<char>,
    tier: ExpertTier,
    formats: Seq<Seq<char>>,
)
    requires
        runs_all(formats),
    ensures
        phase == "integrity_frontier"@ || phase == "projection"@ || phase == "steering"@ || phase
            == "transport"@ ==> starts_with(recommended(phase, tier, formats).1, phase),
        phase == "steering"@ || phase == "transport"@ ==> starts_with(
            recommended(phase, tier, formats).1,
            phase + "_"@ + tier.spec_name(),
        ),
{
    lemma_names_differ();
    reveal_strlit("integrity_frontier");
    reveal_strlit("integrity_frontier_protected");
    reveal_strlit("projection");
    reveal_strlit("projection_layer_protected");
    reveal_strlit("steering");
    reveal_strlit("steering_hot_expert");
    reveal_strlit("steering_warm_expert");
    reveal_strlit("steering_cold_expert");
    reveal_strlit("transport");
    reveal_strlit("transport_hot_expert");
    reveal_strlit("transport_warm_expert");
    reveal_strlit("transport_cold_low_precision");
    reveal_strlit("_");
    reveal_strlit("hot");
    reveal_strlit("warm");
    reveal_strlit("cold");
    let r = recommended(phase, tier, formats).1;
    if phase == "integrity_frontier"@ {
        assert(r.take(18) == phase);
    } else if phase == "projection"@ {
        assert(r.take(10) == phase);
    } else if phase == "steering"@ {
        assert(r.take(8) == phase);
        match tier {
            ExpertTier::Hot => {
                assert(r.take(12) == phase + "_"@ + "hot"@);
            },
            ExpertTier::Warm => {
                assert(r.take(13) == phase + "_"@ + "warm"@);
            },
            ExpertTier::Cold => {
                assert(r.take(13) == phase + "_"@ + "cold"@);
            },
        }
    } else if phase == "transport"@ {
        assert(r.take(9) == phase);
        match tier {
            ExpertTier::Hot => {
                assert(r.take(13) == phase + "_"@ + "hot"@);
            },
            ExpertTier::Warm => {
                assert(r.take(14) == phase + "_"@ + "warm"@);
            },
            ExpertTier::Cold => {
                assert(r.take(14) == phase + "_"@ + "cold"@);
            },
        }
    }
}

/// A plan is ordered by layer; within a layer experts stand before routers, and
/// experts in the order of their numbers.
pub proof fn plans_are_in_order(sorted: Seq<EntryFacts>, es: Seq<EntryFacts>, i: int, j: int)
    requires
        in_key_order(sorted, es),
        es.len() <= usize::MAX,
        0 <= i < j < sorted.len(),
    ensures
        sorted[i].layer <= sorted[j].layer,
        sorted[i].layer == sorted[j].layer && sorted[i].kind == "router"@ ==> sorted[j].kind
            == "router"@,
        sorted[i].layer == sorted[j].layer && sorted[i].kind != "router"@ && sorted[j].kind
            != "router"@ ==> match (sorted[i].expert, sorted[j].expert) {
            (Some(a), Some(b)) => a <= b,
            (Some(_), None) => false,
            _ => true,
        },
{
    plan_is_complete(sorted, es);
    assert(entry_key(sorted[i]) <= entry_key(sorted[j]));
}

/// The plan for a model whose layers have their usual phases: every expert has an
/// entry with its tier, and on a target that runs all formats it gets five bits in
/// the first three and the last two layers and where it is hot in a steering layer,
/// three where it is cold in a transport layer, and four elsewhere.
pub proof fn experts_get_their_bits(
    sorted: Seq<EntryFacts>,
    importance: ExpertImportance,
    policy: PhasePolicy,
    num_layers: u32,
    routers: Seq<RouterEntry>,
    formats: Seq<Seq<char>>,
    k: int,
)
    requires
        in_key_order(sorted, unordered(importance, policy, routers, formats)),
        unordered(importance, policy, routers, formats).len() <= usize::MAX,
        phase_pass::is_policy(policy.layers@, num_layers),
        runs_all(formats),
        0 <= k < importance.experts@.len(),
        importance.experts@[k].layer < num_layers,
    ensures
        exists|i: int|
            0 <= i < sorted.len() && {
                let e = importance.experts@[k];
                let at = #[trigger] sorted[i];
                let guarded = e.layer < 3 || num_layers - e.layer <= 2;
                let steers = e.layer % 4 == 3 && e.layer < 40;
                &&& at.kind == "expert"@
                &&& at.layer == e.layer
                &&& at.expert == Some(e.expert)
                &&& at.tier == Some(e.tier.spec_name())
                &&& bits_of(at.recommended_format) == if guarded || (steers && e.tier
                    == ExpertTier::Hot) {
                    5nat
                } else if !steers && e.tier == ExpertTier::Cold {
                    3
                } else {
                    4
                }
            },
{
    let es = unordered(importance, policy, routers, formats);
    let e = importance.experts@[k];
    let at = es[routers.len() + k];
    assert(at == expert_entry(e, policy, formats));
    plan_is_complete(sorted, es);
    assert(sorted.contains(at));
    let i = choose|i: int| 0 <= i < sorted.len() && sorted[i] == at;
    phase_pass::policy_is_read_back(policy, num_layers, e.layer);
    phase_pass::phases_part_the_layers(e.layer, num_layers);
    let phase = phase_pass::phase_in(policy, e.layer);
    bits_go_where_they_matter(phase, e.tier, formats);
    lemma_names_differ();
    assert(sorted[i].recommended_format == recommended(phase, e.tier, formats).0);
}

/// Every router has an entry, with eight bits, whatever the target.
pub proof fn routers_are_planned(
    sorted: Seq<EntryFacts>,
    importance: ExpertImportance,
    policy: PhasePolicy,
    routers: Seq<RouterEntry>,
    formats: Seq<Seq<char>>,
    k: int,
)
    requires
        in_key_order(sorted, unordered(importance, policy, routers, formats)),
        unordered(importance, policy, routers, formats).len() <= usize::MAX,
        0 <= k < routers.len(),
    ensures
        exists|i: int|
            0 <= i < sorted.len() && (#[trigger] sorted[i]).kind == "router"@ && sorted[i].layer
                == routers[k].layer && bits_of(sorted[i].recommended_format) == 8
                && sorted[i].expert is None && sorted[i].tier is None,
        sorted.len() == routers.len() + importance.experts@.len(),
{
    let es = unordered(importance, policy, routers, formats);
    assert(es[k] == router_entry(routers[k].layer));
    plan_is_complete(sorted, es);
    assert(sorted.contains(es[k]));
    let i = choose|i: int| 0 <= i < sorted.len() && sorted[i] == es[k];
    assert(sorted[i].kind == "router"@);
}

} // verus!
