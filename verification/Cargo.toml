[package]
name = "tokimo-vm"
version = "0.1.0"
edition = "2021"
publish = false

[dependencies]
anyhow = "1"
async-trait = "0.1"
block2 = "0.6"
clap = { version = "4", features = ["derive"] }
dispatch2 = "0.3"
fuser = { version = "0.15", default-features = false }
libc = "0.2"
objc2 = "0.6"
objc2-foundation = "0.3"
objc2-virtualization = "0.3"
parking_lot = "0.12"
postcard = { version = "1", default-features = false, features = ["use-std"] }
serde = { version = "1", features = ["derive"] }
serde_json = "1"
thiserror = "2"
tokio = { version = "1", features = ["full"] }
tracing = "0.1"
tracing-subscriber = { version = "0.3", features = ["env-filter"] }
uuid = { version = "1", features = ["v4"] }
