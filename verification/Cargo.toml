[package]
name = "open_cad_studio"
version = "0.1.0"
edition = "2021"
publish = false

[dependencies]
i18n-embed = { version = "=0.16.0", features = ["fluent-system", "desktop-requester"] }
serde = { version = "=1.0.229", features = ["derive"] }
log = "=0.4.35"
acadrust = "=0.6.8"
rust-embed = "=8.13.0"
