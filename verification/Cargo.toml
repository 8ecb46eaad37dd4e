[package]
name = "prototype_net"
version = "0.1.0"
edition = "2021"
publish = false

[dependencies]
siphasher = { version = "1", default-features = false }
hickory-resolver = "0.25"
anyhow = "1"
aya = "0.13"
aya-log = "0.2"
aya-ebpf = "0.1"
aya-log-ebpf = "0.1"
network-types = "0.1"
clap = { version = "4", features = ["derive"] }
nix = { version = "0.30", features = ["net"] }
serde = { version = "1", features = ["derive"] }
sqlx = { version = "0.8", default-features = false, features = ["postgres", "runtime-tokio"] }
tokio = { version = "1", features = ["macros", "net", "rt-multi-thread", "signal", "sync", "time"] }
toml = "0.8"
tracing = "0.1"
tracing-subscriber = "0.3"
