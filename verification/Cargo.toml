[package]
name = "hiisi"
version = "0.1.0"
edition = "2021"
publish = false

[dependencies]
chrono = { version = "0.4", features = ["serde"] }
clap = { version = "4", features = ["derive"] }
ctrlc = "3"
humantime = "2"
nix = { version = "*", features = ["signal", "user"] }
rand = "0.8"
ron = "*"
serde = { version = "1", features = ["derive"] }
serde_json = "1"
slug = "0.1"
sysinfo = { version = "*", default-features = false, features = ["system"] }
tabled = "*"
tokio = { version = "1", features = ["rt-multi-thread", "macros", "net", "io-util", "process", "sync", "time", "fs"] }
tokio-stream = { version = "0.1", features = ["io-util"] }
tracing = "0.1"
tracing-subscriber = "0.3"
users = "0.11"
