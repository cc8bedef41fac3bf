[package]
name = "bdstorage"
version = "0.1.2"
edition = "2021"
publish = false

[dependencies]
anyhow = "1"
bincode = "1"
blake3 = "1"
clap = { version = "4", features = ["derive"] }
colored = "2"
crossbeam = "0.8"
indicatif = "0.17"
jwalk = "0.8"
rayon = "1"
redb = "2"
serde = { version = "1", features = ["derive"] }
