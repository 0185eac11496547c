[package]
name = "rustfs_core"
version = "0.1.0"
edition = "2021"
publish = false

[dependencies]
aws-config = { version = "1.10", default-features = false, features = ["behavior-version-latest", "rt-tokio"] }
aws-sdk-s3 = { version = "1.145", default-features = false, features = ["behavior-version-latest", "rt-tokio"] }
bytes = "1"
chrono = "=0.4.45"
futures = "0.3"
pin-project-lite = "0.2"
s3s = "0.14"
serde = { version = "1", features = ["derive"] }
serde_json = "1"
tokio = { version = "1", features = ["rt", "rt-multi-thread", "sync", "time", "macros", "io-util"] }
tonic = { version = "=0.14.9", default-features = false, features = ["channel", "tls-ring", "tls-native-roots"] }
tracing = "0.1"
uuid = { version = "=1.29.0", features = ["v4", "serde"] }

[dev-dependencies]
rand = "0.9"
