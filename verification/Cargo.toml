[package]
name = "inspect_core"
version = "0.1.0"
edition = "2021"
publish = false

[dependencies]
radix_trie = "=0.2.1"
ahash = "=0.8.12"
openssl = "=0.10.81"
tokio = { version = "=1.54.1", features = ["io-util", "time", "net"] }
bytes = "=1.12.1"
anyhow = "=1.0.104"
thiserror = "=1.0.69"
slog = "=2.8.2"
h2 = "=0.4.20"
