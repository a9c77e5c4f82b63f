[package]
name = "manager"
version = "0.1.0"
edition = "2021"
publish = false

[dependencies]
flurry = "=0.5.2"
base64 = "=0.13.1"
uuid = { version = "=1.29.0", features = ["serde"] }
chrono = { version = "=0.4.45", features = ["serde"] }
uom = "=0.35.0"
serde = { version = "=1.0.229", features = ["derive"] }
serde_json = "=1.0.154"
serde_with = "=3.24.0"
schemars = "=0.8.22"
tokio = { version = "=1.54.1", features = ["rt-multi-thread", "macros", "time", "sync"] }
kube = { version = "=5.0.0", default-features = false, features = ["client", "rustls-tls"] }
k8s-openapi = { version = "=0.29.0", features = ["latest"] }
reqwest = { version = "=0.13.5", default-features = false, features = ["json"] }
actix-web = { version = "=4.18.1", default-features = false, features = ["macros"] }
dashmap = "=6.2.1"
bytes = "=1.12.1"
futures = "=0.3.34"
lazy-regex = "*"
regex = "*"
