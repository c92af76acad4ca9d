[package]
name = "objeta"
version = "0.1.0"
edition = "2021"
publish = false

[dependencies]
clap = { version = "4", features = ["derive"] }
cudarc = { version = "0.17", default-features = false, features = ["std", "driver", "runtime", "nvrtc", "cuda-12060", "dynamic-loading"] }
nalgebra = "0.33"
rand = "0.8"
rand_distr = "0.4"
rayon = "1"
serde = { version = "1", features = ["derive"] }
serde_json = "1"
thiserror = "1"
tracing = "0.1"
tracing-subscriber = "0.3"
