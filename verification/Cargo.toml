[package]
name = "enclave_workshop"
version = "0.1.0"
edition = "2021"
publish = false

[dependencies]
base64 = "0.22"
rand = "0.9"
serde = { version = "1", features = ["derive"] }
serde_json = "1"
clap = { version = "4", features = ["derive"] }
vsock = "0.5"
reqwest = { version = "0.12", default-features = false, features = ["blocking", "json", "rustls-tls"] }
tokio = { version = "1", features = ["macros", "rt-multi-thread"] }
aws-config = "1"
aws-sdk-kms = "1"
thiserror = "2"
