[package]
name = "pf4voice"
version = "0.1.0"
edition = "2021"
publish = false

[dependencies]
protobuf-core = "*"
sha2 = "0.10"
itertools = "0.13"
axum = "0.7"
tokio = { version = "1", features = ["macros", "rt-multi-thread", "net", "fs"] }
serde = { version = "1", features = ["derive"] }
serde_json = "1"
base64 = "0.22"
bytes = "1"
reqwest = { version = "0.12", default-features = false, features = ["json"] }
url = "2"
hound = "3"
rubato = "0.15"
tracing = "0.1"
tracing-subscriber = "0.3"
async-recursion = "1"
