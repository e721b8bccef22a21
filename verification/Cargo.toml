[package]
name = "performance_utils"
version = "0.1.0"
edition = "2021"
publish = false

[dependencies]
flate2 = "1"
lz4_flex = "0.11"
num_cpus = "1"
rand = "0.8"
rayon = "1"
serde = { version = "1", features = ["derive"] }
