[package]
name = "disksage"
version = "0.1.0"
edition = "2021"
publish = false

[dependencies]
uuid = { version = "1", features = ["v4"] }
blake3 = { version = "1", features = ["pure"] }
chrono = "0.4"
serde = { version = "1", features = ["derive"] }
serde_json = "1"
sysinfo = "*"
trash = "*"
plist = "1"
tracing = "0.1"
thiserror = "*"

[dev-dependencies]
tempfile = "3"
