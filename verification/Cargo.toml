[package]
name = "mini_ray"
version = "0.1.0"
edition = "2021"
publish = false

[dependencies]
bincode = "1.3"
clap = { version = "4", features = ["derive"] }
prost = "0.13"
serde = { version = "1", features = ["derive"] }
thiserror = "1"
tokio = { version = "1", features = ["macros", "net", "rt-multi-thread", "sync", "time"] }
tonic = "0.12"
uuid = { version = "1", features = ["serde", "v4"] }
