[package]
name = "pc_benchmark"
version = "0.1.0"
edition = "2021"
publish = false

[dependencies]
rand = "0.8"
twox-hash = "1.6"
serde = { version = "1", features = ["derive"] }
toml = "0.8"
anyhow = "1"
colored = "2"
indicatif = "0.17"
num_cpus = "1"
rayon = "1"
sysinfo = "0.30"
tokio = { version = "1", features = ["macros", "rt-multi-thread"] }
wgpu = "0.19"
bytemuck = "1"
