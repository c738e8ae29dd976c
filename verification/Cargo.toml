[package]
name = "daktronics_singular_ui"
version = "0.1.0"
edition = "2021"
publish = false

[dependencies]
clap = { version = "=4.6.7", features = ["derive"] }
daktronics-allsport-5000 = { version = "=0.5.0", features = ["serde"] }
reqwest = { version = "=0.13.5", default-features = false }
serde = { version = "=1.0.229", features = ["derive"] }
serde_json = "=1.0.151"
tokio = { version = "=1.53.2", features = ["rt-multi-thread", "macros", "sync", "time"] }
tokio-serial = "=5.5.0"
