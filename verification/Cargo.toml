[package]
name = "papyrus_sync"
version = "0.1.0"
edition = "2021"
publish = false

[dependencies]
indexmap = "=1.9.3"
async-stream = "0.3"
async-trait = "0.1"
clap = { version = "4", default-features = false, features = ["std", "help", "usage", "error-context", "env", "string"] }
futures-util = "0.3"
papyrus_storage = "=0.0.5"
proc-macro2 = "1"
quote = "1"
rand = "0.8"
rand_chacha = "0.3"
serde = { version = "1", features = ["derive"] }
serde_json = "1"
serde_yaml = "0.9"
starknet_api = "=0.5.0-rc1"
syn = { version = "2", features = ["full"] }
thiserror = "1"
tokio = { version = "1", features = ["macros", "rt", "time"] }
tracing = "0.1"
