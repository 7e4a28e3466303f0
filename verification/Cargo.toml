[package]
name = "remap"
version = "0.1.0"
edition = "2021"
publish = false

[dependencies]
blake3 = { version = "1", default-features = false, features = ["pure", "std"] }
clap = { version = "4", features = ["derive"] }
futures = "0.3"
nix = { version = "0.30", features = ["dir", "fs", "process", "signal", "socket", "user"] }
proc-macro2 = { version = "1", features = ["span-locations"] }
rustix = { version = "1", features = ["fs", "process"] }
serde = { version = "1", features = ["derive"] }
serde_json = "1"
sha2 = "0.10"
syn = { version = "2", features = ["full", "visit", "extra-traits"] }
tokio = { version = "1", features = ["full"] }
uuid = { version = "1", features = ["v4"] }
xattr = "1"
zbus = { version = "5", default-features = false, features = ["blocking-api", "tokio"] }

[dev-dependencies]
tempfile = "3"
