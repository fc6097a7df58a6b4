[package]
name = "slint-clash"
version = "0.1.0"
edition = "2021"
publish = false

[dependencies]
dirs = "=7.0.0"
eyre = "=0.6.14"
i18n-embed = { version = "=0.16.0", features = ["desktop-requester"] }
reqwest = { version = "=0.12.28", default-features = false, features = ["json", "rustls-tls"] }
serde = { version = "=1.0.229", features = ["derive"] }
serde_json = "=1.0.154"
serde_yaml_ng = "=0.10.0"
slint = { version = "=1.18.1", default-features = false, features = ["compat-1-2", "std"] }
time = { version = "=0.3.55", features = ["macros"] }
tokio = { version = "=1.54.1", features = ["rt-multi-thread", "macros", "net", "io-util", "time"] }
tracing = "=0.1.44"
tracing-subscriber = { version = "=0.3.23", features = ["local-time"] }
