[package]
name = "tarpc"
version = "0.1.0"
edition = "2021"
publish = false

[dependencies]
bincode = "1"
byteorder = "1"
bytes = "0.4"
cfg-if = "1"
execution-context = "0.1"
futures = "0.1"
lazy_static = "1"
log = "0.4"
native-tls = "0.2"
net2 = "0.2"
num_cpus = "1"
serde = { version = "1", features = ["derive"] }
thread-pool = "0.1"
tokio-codec = "0.1"
tokio-core = "0.1"
tokio-io = "0.1"
tokio-proto = "0.1"
tokio-service = "0.1"
tokio-tls = "0.2"
