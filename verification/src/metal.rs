//! Metal shaders: their names, and how they are compiled.

use crate::text;
use vstd::prelude::*;
use vstd::string::*;

verus! {

/// Where the shader sources are.
pub const KERNEL_DIR: &'static str = "kernels/metal";

pub const KERNEL_Q4_EXPERT_GEMV: &'static str = "q4_expert_gemv";

pub const KERNEL_MULTI_EXPERT_GEMV: &'static str = "multi_expert_gemv";

pub const KERNEL_ROUTER_LOGITS: &'static str = "router_logits";

pub const KERNEL_ROUTER_SOFTMAX_TOPK: &'static str = "router_softmax_topk";

pub const KERNEL_FUSED_RESIDUAL_NORM: &'static str = "fused_residual_norm";

pub const KERNEL_SHARED_EXPERT_FORWARD: &'static str = "shared_expert_forward";

/// The command that compiles the shaders into `output`.
pub open spec fn build_command(output: Seq<char>) -> Seq<char> {
    "xcrun -sdk macosx metal -c "@ + KERNEL_DIR@ + "/q4_expert_gemv.metal "@ + KERNEL_DIR@
        + "/router_forward.metal "@ + KERNEL_DIR@ + "/fused_ops.metal -o "@ + output
}

/// The command that compiles the shaders into `output`.
pub fn metal_build_command(output: &str) -> (s: String)
    ensures
        s@ == build_command(output@),
{
    let mut s = "xcrun -sdk macosx metal -c ".to_owned();
    s.append(KERNEL_DIR);
    s.append("/q4_expert_gemv.metal ");
    s.append(KERNEL_DIR);
    s.append("/router_forward.metal ");
    s.append(KERNEL_DIR);
    s.append("/fused_ops.metal -o ");
    s.append(output);
    s
}

/// The command compiles all three shader files, and ends with where they go.
pub proof fn commands_name_every_shader(output: Seq<char>)
    ensures
        text::contains_text(build_command(output), "kernels/metal"@ + "/q4_expert_gemv.metal "@),
        text::contains_text(build_command(output), "kernels/metal"@ + "/router_forward.metal "@),
        text::contains_text(build_command(output), "kernels/metal"@ + "/fused_ops.metal -o "@),
        text::occurs_at(build_command(output), "xcrun -sdk macosx metal -c "@, 0),
        text::ends_with_text(build_command(output), output),
{
    let (a, k) = ("xcrun -sdk macosx metal -c "@, "kernels/metal"@);
    let (b, c, d) = (
        "/q4_expert_gemv.metal "@,
        "/router_forward.metal "@,
        "/fused_ops.metal -o "@,
    );
    let s = build_command(output);
    assert(s == a + (k + b) + (k + c + k + d + output));
    text::middles_are_contained(a, k + b, k + c + k + d + output);
    assert(s == (a + k + b) + (k + c) + (k + d + output));
    text::middles_are_contained(a + k + b, k + c, k + d + output);
    assert(s == (a + k + b + k + c) + (k + d) + output);
    text::middles_are_contained(a + k + b + k + c, k + d, output);
    assert(s.subrange(0, a.len() as int) == a);
    assert(s.subrange(s.len() - output.len(), s.len() as int) == output);
}

} // verus!
