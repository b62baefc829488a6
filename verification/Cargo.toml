[package]
name = "iscsi-luks-csi"
version = "0.1.0"
edition = "2021"
publish = false

[dependencies]
anyhow = "=1.0.104"
clap = { version = "=4.6.7", features = ["derive", "env"] }
k8s-openapi = { version = "=0.29.0", features = ["latest"] }
kube = { version = "=5.0.0", features = ["client", "derive", "runtime"] }
prost = "=0.14.4"
schemars = "=1.2.3"
serde = { version = "=1.0.229", features = ["derive"] }
serde_json = "=1.0.154"
serde_yaml = "=0.9.34"
thiserror = "=2.0.21"
tokio = { version = "=1.54.1", features = ["macros", "rt-multi-thread", "fs", "net"] }
tokio-stream = { version = "=0.1.19", features = ["net"] }
tonic = "=0.14.9"
tonic-prost = "=0.14.9"
tracing = "=0.1.44"
tracing-subscriber = { version = "=0.3.23", features = ["env-filter"] }
