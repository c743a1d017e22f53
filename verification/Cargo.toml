[package]
name = "gity"
version = "0.1.0"
edition = "2021"
publish = false

[dependencies]
sha1 = "0.10"
hex = "0.4"
notify = "6"
serde = { version = "1", features = ["derive"] }
serde_json = "1"
bincode = "1"
tokio = { version = "1", features = ["full"] }
nng = "1"
async-nng = "*"
sled = "0.34"
git2 = { version = "*", default-features = false }
clap = { version = "4", features = ["derive"] }
thiserror = "1"
tracing = "0.1"
async-trait = "0.1"
sysinfo = "0.30"
dirs = "5"
libc = "0.2"
mimalloc = { version = "0.1", default-features = false }
