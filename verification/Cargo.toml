[package]
name = "rbsky"
version = "0.1.0"
edition = "2021"
publish = false

[dependencies]
anyhow = "1"
atrium-api = "=0.25.8"
atrium-xrpc-client = "*"
chrono = "=0.4.45"
clap = { version = "4", features = ["derive"] }
dirs = "*"
env_logger = "*"
futures = "0.3"
log = "0.4"
neovim-lib = "=0.6.1"
# neovim-lib reads its messages with functions of rmp that 0.8.15 no longer has.
rmp = "=0.8.14"
serde = { version = "1", features = ["derive"] }
serde_json = "=1.0.154"
simple-log = "*"
tokio = { version = "1", features = ["full"] }
