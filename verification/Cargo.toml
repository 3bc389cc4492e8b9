[package]
name = "gcm_exporter"
version = "0.1.0"
edition = "2021"
publish = false

[dependencies]
unicode-segmentation = "*"
rand = "0.9"
tonic = { version = "0.13", features = ["tls-native-roots"] }
tokio = { version = "*", features = ["rt-multi-thread", "macros", "sync", "time"] }
hyper = "*"
async-trait = "*"
gcp_auth = "*"
prost = "0.13"
opentelemetry = "0.31"
opentelemetry_sdk = "0.31"
opentelemetry_resourcedetector_gcp_rust = "*"
