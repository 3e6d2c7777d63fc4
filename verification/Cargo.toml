[package]
name = "blinky"
version = "0.1.0"
edition = "2021"
publish = false

[dependencies]
base64 = "=0.22.1"
sha1 = "=0.10.7"
rand = "=0.9.5"
serde = { version = "1", features = ["derive"] }
serde_json = "1"
tokio = { version = "1", features = ["macros", "rt-multi-thread", "sync", "time", "net"] }
tokio-websockets = { version = "0.11", features = ["client", "sha1_smol", "fastrand"] }
http = "1"
futures-util = { version = "0.3", features = ["sink"] }
tracing = "0.1"
tracing-subscriber = "0.3"
dotenvy = "0.15"
twilight-cache-inmemory = "=0.16.0"
twilight-gateway = { version = "=0.16.0", default-features = false }
twilight-http = { version = "=0.16.0", default-features = false }
twilight-model = "=0.16.0"
twilight-standby = "=0.16.0"
twilight-util = { version = "=0.16.0", features = ["builder"] }
twilight-interactions = "0.16"
songbird = { version = "0.5", default-features = false, features = ["driver"] }
bssl-sys = "=0.1.0"
