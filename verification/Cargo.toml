[package]
name = "rustcommon"
version = "0.1.0"
edition = "2021"
publish = false

[dependencies]
libc = "0.2"
parking_lot = "0.12"
serde = { version = "1", features = ["derive"] }
schemars = "0.8"
thiserror = "1"
time = "0.3"
winapi = { version = "0.3", features = ["profileapi", "sysinfoapi", "winnt", "minwindef"] }

[dev-dependencies]
serde_json = "1"
rand = "0.8"
