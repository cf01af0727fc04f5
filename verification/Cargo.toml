[package]
name = "fdf"
version = "0.1.0"
edition = "2021"
publish = false

[dependencies]
anyhow = "1"
arrow = { version = "60", default-features = false }
clap = { version = "4", default-features = false, features = ["derive", "std", "help", "usage"] }
hf-hub = { version = "0.4", default-features = false, features = ["tokio"] }
indicatif = "0.17"
parquet = { version = "60", default-features = false, features = ["arrow"] }
polars = { version = "0.41", default-features = false, features = ["lazy", "strings", "regex"] }
rayon = "1"
regex = "=1.13.1"
serde = { version = "1", features = ["derive"] }
serde_json = "=1.0.154"
serde_yaml = "=0.9.34"
tokio = { version = "1", default-features = false, features = ["rt-multi-thread"] }
uuid = { version = "=1.29.0", default-features = false, features = ["v4", "std"] }
xxhash-rust = { version = "=0.8.19", features = ["xxh3"] }
