[package]
name = "malalongxia"
version = "0.1.0"
edition = "2021"
publish = false

[dependencies]
serde = { version = "1", features = ["derive"] }
serde_json = "1"
reqwest = { version = "0.12", default-features = false, features = ["json", "stream", "rustls-tls"] }
tokio = { version = "1", features = ["process", "fs", "time", "macros", "rt-multi-thread", "io-util"] }
futures-util = "0.3"
sysinfo = "0.33"
dirs = "6"
which = "7"
glob = "0.3"
