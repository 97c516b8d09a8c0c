[package]
name = "nami"
version = "0.1.0"
edition = "2021"
publish = false

[dependencies]
time = { version = "0.3", features = ["formatting", "parsing", "macros", "serde"] }
toml = "0.8"
serde = { version = "1", features = ["derive"] }
serde_json = "1"
clap = { version = "4", features = ["derive"] }
clap_complete = "4"
tokio = { version = "1", features = ["rt-multi-thread", "macros", "process", "signal", "time"] }
libc = "0.2"
reqwest = { version = "0.12", default-features = false, features = ["rustls-tls"] }
thiserror = "1"
tracing-subscriber = { version = "0.3", features = ["env-filter"] }
anyhow = "1"
