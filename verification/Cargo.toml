[package]
name = "cypher_cli"
version = "0.1.0"
edition = "2021"
publish = false

[dependencies]
fixed = "1"
serde = { version = "1", features = ["derive"] }
serde_json = "1"
thiserror = "1"
log = "0.4"
clap = "=2.34.0"
chrono = "0.4"
thousands = "0.2"
dashmap = "5"
tokio = { version = "1", features = ["full"] }
async-trait = "0.1"
bytemuck = "1"
anchor-lang = "*"
anchor-spl = "*"
solana-sdk = "*"
spl-associated-token-account = "*"
