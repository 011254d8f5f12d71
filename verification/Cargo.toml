[package]
name = "sp_cli"
version = "0.1.0"
edition = "2021"
publish = false

[dependencies]
anyhow = "=1.0.104"
bdk_bitcoind_rpc = "=0.20.0"
bdk_chain = "=0.23.4"
bdk_coin_select = "=0.4.1"
bdk_file_store = "=0.21.1"
bdk_tx = "=0.1.0"
bip157 = "=0.3.4"
bitcoin = { version = "=0.32.102", features = ["serde", "rand-std"] }
clap = { version = "=4.6.7", features = ["derive", "env"] }
electrum_streaming_client = { version = "=0.4.0", features = ["tokio"] }
futures = "=0.3.34"
jsonrpc = "=0.18.0"
rand = "=0.9.5"
serde = { version = "=1.0.229", features = ["derive"] }
serde_json = "=1.0.154"
tracing = "=0.1.44"
tracing-subscriber = "=0.3.23"
url = "=2.5.8"
