[package]
name = "rpm_builder"
version = "0.1.0"
edition = "2021"
publish = false

[dependencies]
chrono = "=0.4.45"
clap = "=2.34.0"
rpm-rs = { version = "=0.8.1", default-features = false, features = ["signature-meta", "async-tokio"] }

[dev-dependencies]
regex = "=1.13.1"
