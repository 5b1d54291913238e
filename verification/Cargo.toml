[package]
name = "tokio-io-pool"
version = "0.2.0"
edition = "2021"
publish = false

[dependencies]
futures-core-preview = "=0.3.0-alpha.19"
num_cpus = "1"
tokio = "=0.2.0-alpha.6"
tokio-executor = { version = "=0.2.0-alpha.6", features = ["current-thread"] }

[dev-dependencies]
futures-util-preview = "=0.3.0-alpha.19"
