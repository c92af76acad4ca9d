//! Hardware targets.

use crate::aot::precision_pass;
use crate::text;
use vstd::prelude::*;

verus! {

pub const GB: u64 = 1024 * 1024 * 1024;

pub const MB: u64 = 1024 * 1024;

/// What is known of a hardware target.
#[derive(Debug, Clone)]
pub struct TargetHardware {
    pub name: String,
    pub ram_bytes: u64,
    pub vram_bytes: u64,
    pub recommended_cache_bytes: u64,
    pub supports_gpu: bool,
    pub storage_tier: String,
    /// The name of the executor backend.
    pub preferred_backend: String,
    /// The formats that run well, best quality first.
    pub preferred_quant_formats: Vec<String>,
}

/// The contents of a target.
#[verifier::ext_equal]
pub struct Profile {
    pub name: Seq<char>,
    pub ram_bytes: u64,
    pub vram_bytes: u64,
    pub recommended_cache_bytes: u64,
    pub supports_gpu: bool,
    pub storage_tier: Seq<char>,
    pub preferred_backend: Seq<char>,
    pub preferred_quant_formats: Seq<Seq<char>>,
}

impl View for TargetHardware {
    type V = Profile;

    open spec fn view(&self) -> Profile {
        Profile {
            name: self.name@,
            ram_bytes: self.ram_bytes,
            vram_bytes: self.vram_bytes,
            recommended_cache_bytes: self.recommended_cache_bytes,
            supports_gpu: self.supports_gpu,
            storage_tier: self.storage_tier@,
            preferred_backend: self.preferred_backend@,
            preferred_quant_formats: text::views(self.preferred_quant_formats@),
        }
    }
}

/// The profile of a target, by name. A name that is not known gets a safe one.
pub open spec fn profile_of(name: Seq<char>) -> Profile {
    let (ram, vram, cache, gpu, backend, formats) = if name == "m1-8gb"@ {
        (8 * GB, 0, 3 * GB, false, "fused_row_parallel"@, seq!["q5"@, "q4"@, "q4_k"@])
    } else if name == "m2-16gb"@ {
        (16 * GB, 0, 4 * GB, false, "fused_row_parallel"@, seq!["q5"@, "q4"@, "q4_k"@])
    } else if name == "rtx3070-8gb-vram-32gb-ram"@ {
        (32 * GB, 8 * GB, 8 * GB, true, "cuda_fused"@, seq!["q5"@, "q4"@, "iq3"@, "iq2"@])
    } else if name == "cpu-32gb"@ {
        (32 * GB, 0, 8 * GB, false, "cpu_parallel"@, seq!["q4"@, "q4_k"@, "iq3"@])
    } else {
        (16 * GB, 0, 4 * GB, false, "fused_row_parallel"@, seq!["q4"@])
    };
    Profile {
        name,
        ram_bytes: ram as u64,
        vram_bytes: vram as u64,
        recommended_cache_bytes: cache as u64,
        supports_gpu: gpu,
        storage_tier: "nvme"@,
        preferred_backend: backend,
        preferred_quant_formats: formats,
    }
}

/// The bytes that an expert is taken to have where nothing better is known.
pub open spec fn expert_bytes_of(name: Seq<char>) -> u64 {
    if name == "m1-8gb"@ {
        (2 * MB) as u64
    } else if name == "m2-16gb"@ {
        (3 * MB) as u64
    } else if name == "rtx3070-8gb-vram-32gb-ram"@ || name == "cpu-32gb"@ {
        (4 * MB) as u64
    } else {
        (2 * MB) as u64
    }
}

fn formats(a: &str, b: &str, c: &str) -> (v: Vec<String>)
    ensures
        text::views(v@) == seq![a@, b@, c@],
{
    let v = vec![a.to_owned(), b.to_owned(), c.to_owned()];
    assert(text::views(v@) == seq![a@, b@, c@]);
    v
}

fn profile(
    name: &str,
    ram_bytes: u64,
    vram_bytes: u64,
    recommended_cache_bytes: u64,
    supports_gpu: bool,
    backend: &str,
    preferred_quant_formats: Vec<String>,
) -> (t: TargetHardware)
    ensures
        t@ == (Profile {
            name: name@,
            ram_bytes,
            vram_bytes,
            recommended_cache_bytes,
            supports_gpu,
            storage_tier: "nvme"@,
            preferred_backend: backend@,
            preferred_quant_formats: text::views(preferred_quant_formats@),
        }),
{
    TargetHardware {
        name: name.to_owned(),
        ram_bytes,
        vram_bytes,
        recommended_cache_bytes,
        supports_gpu,
        storage_tier: "nvme".to_owned(),
        preferred_backend: backend.to_owned(),
        preferred_quant_formats,
    }
}

impl TargetHardware {
    /// The target of a name.
    pub fn from_name(name: &str) -> (t: TargetHardware)
        ensures
            t@ == profile_of(name@),
    {
        if text::text_eq(name, "m1-8gb") {
            return profile(
                name,
                8 * GB,
                0,
                3 * GB,
                false,
                "fused_row_parallel",
                formats("q5", "q4", "q4_k"),
            );
        }
        if text::text_eq(name, "m2-16gb") {
            return profile(
                name,
                16 * GB,
                0,
                4 * GB,
                false,
                "fused_row_parallel",
                formats("q5", "q4", "q4_k"),
            );
        }
        if text::text_eq(name, "rtx3070-8gb-vram-32gb-ram") {
            let v = vec!["q5".to_owned(), "q4".to_owned(), "iq3".to_owned(), "iq2".to_owned()];
            assert(text::views(v@) == seq!["q5"@, "q4"@, "iq3"@, "iq2"@]);
            return profile(name, 32 * GB, 8 * GB, 8 * GB, true, "cuda_fused", v);
        }
        if text::text_eq(name, "cpu-32gb") {
            return profile(
                name,
                32 * GB,
                0,
                8 * GB,
                false,
                "cpu_parallel",
                formats("q4", "q4_k", "iq3"),
            );
        }
        let v = vec!["q4".to_owned()];
        assert(text::views(v@) == seq!["q4"@]);
        profile(name, 16 * GB, 0, 4 * GB, false, "fused_row_parallel", v)
    }

    /// The bytes that an expert is taken to have where nothing better is known.
    pub fn default_expert_bytes(&self) -> (n: u64)
        ensures
            n == expert_bytes_of(self.name@),
    {
        let name = self.name.as_str();
        if text::text_eq(name, "m1-8gb") {
            2 * MB
        } else if text::text_eq(name, "m2-16gb") {
            3 * MB
        } else if text::text_eq(name, "rtx3070-8gb-vram-32gb-ram") || text::text_eq(
            name,
            "cpu-32gb",
        ) {
            4 * MB
        } else {
            2 * MB
        }
    }
}

/// Every target has a cache within its memory, and some format to store experts
/// in.
pub proof fn targets_are_usable(name: Seq<char>)
    ensures
        0 < profile_of(name).recommended_cache_bytes <= profile_of(name).ram_bytes,
        profile_of(name).preferred_quant_formats.len() > 0,
        profile_of(name).supports_gpu <==> profile_of(name).vram_bytes > 0,
        expert_bytes_of(name) > 0,
{
}

/// A target lists its formats by quality, the one with the most bits first.
pub proof fn targets_list_the_best_first(name: Seq<char>, i: int, j: int)
    requires
        0 <= i < j < profile_of(name).preferred_quant_formats.len(),
    ensures
        precision_pass::bits_of(profile_of(name).preferred_quant_formats[i])
            >= precision_pass::bits_of(profile_of(name).preferred_quant_formats[j]),
        precision_pass::bits_of(profile_of(name).preferred_quant_formats[j]) > 0,
{
    reveal_strlit("q8");
    reveal_strlit("q5");
    reveal_strlit("q4");
    reveal_strlit("q4_k");
    reveal_strlit("iq3");
    reveal_strlit("iq2");
    assert("q8"@[1] == '8' && "q5"@[1] == '5' && "q4"@[1] == '4' && "iq3"@[2] == '3');
    assert("iq2"@[2] == '2' && "q4_k"@.len() == 4 && "q8"@.len() == 2 && "q5"@.len() == 2);
    assert("q4"@.len() == 2 && "iq3"@.len() == 3 && "iq2"@.len() == 3);
}

/// Every target runs `q4`, keeps its own name, and has whole gigabytes of memory,
/// of which the cache takes at most half. A GPU's cache fits its memory.
pub proof fn targets_are_sound(name: Seq<char>)
    ensures
        profile_of(name).name == name,
        profile_of(name).preferred_quant_formats.contains("q4"@),
        profile_of(name).ram_bytes % 0x4000_0000 == 0,
        2 * profile_of(name).recommended_cache_bytes <= profile_of(name).ram_bytes,
        profile_of(name).supports_gpu ==> profile_of(name).recommended_cache_bytes <= profile_of(
            name,
        ).vram_bytes,
        expert_bytes_of(name) % 0x10_0000 == 0,
        expert_bytes_of(name) * 256 <= profile_of(name).recommended_cache_bytes,
{
    let f = profile_of(name).preferred_quant_formats;
    if f.len() > 0 && f[0] == "q4"@ {
    } else {
        assert(f[1] == "q4"@);
    }
}

} // verus!
