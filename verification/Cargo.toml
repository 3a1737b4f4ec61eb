[package]
name = "dfiles"
version = "0.1.0"
edition = "2021"
publish = false

[dependencies]
clap = "=2.34.0"
dockworker = "=0.17.0"
futures = "=0.3.34"
serde = { version = "=1.0.229", features = ["derive"] }
serde_json = "=1.0.154"
tar = "=0.4.46"
tempfile = "=3.27.0"
thiserror = "=1.0.69"
tokio = { version = "=1.54.1", features = ["rt"] }
which = "=4.4.2"
