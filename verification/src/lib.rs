//! Planning, packing and residency logic for mixture-of-experts inference.

pub mod analysis;
pub mod aot;
pub mod assoc;
pub mod bench;
pub mod cache;
pub mod deepseek;
pub mod device;
pub mod error;
pub mod flags;
pub mod gate;
pub mod history;
pub mod ieee;
pub mod launch;
pub mod metal;
pub mod moe;
pub mod options;
pub mod packing;
pub mod quant;
pub mod rank;
pub mod residency;
pub mod run;
pub mod session;
pub mod text;
