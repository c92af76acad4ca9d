//! Ahead-of-time specialization: from a model's tensor index and a calibration
//! trace to layout, tiers, precision, pruning and residency plans.

pub mod calibration_pass;
pub mod keyed;
pub mod layout_laws;
pub mod layout_pass;
pub mod pack_pass;
pub mod phase_pass;
pub mod precision_pass;
pub mod pruning_pass;
pub mod report_laws;
pub mod specialize;
pub mod tally;
pub mod target;
pub mod types;
pub mod util;
pub mod verification_pass;
