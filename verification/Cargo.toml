[package]
name = "nono-cli"
version = "0.1.0"
edition = "2021"
publish = false

[dependencies]
chrono = "=0.4.45"
clap = { version = "=4.6.7", features = ["derive"] }
colored = "=3.1.1"
dirs = "=7.0.0"
nix = { version = "=0.31.3", features = ["fs", "poll", "process", "signal", "socket", "term", "user"] }
semver = "=1.0.28"
serde = { version = "=1.0.229", features = ["derive"] }
serde_json = { version = "=1.0.154", features = ["preserve_order"] }
sha2 = "=0.10.9"
similar = "=2.7.0"
tokio = { version = "=1.54.1", features = ["rt-multi-thread", "net", "time"] }
tracing = "=0.1.44"
vt100 = "=0.16.2"

[dev-dependencies]
tempfile = "=3.27.0"
