[package]
name = "dolphine"
version = "0.1.0"
edition = "2021"
publish = false

[dependencies]
rocket = "0.5"
serde = { version = "1", features = ["derive"] }
serde_json = "1"
serde_repr = "0.1"
tokio = { version = "1", features = ["full"] }
tokio-tungstenite = "0.21"
futures-util = { version = "0.3", features = ["sink"] }
include_dir = "0.7"
once_cell = "1"
eyre = "0.6"
winreg = "0.52"
syn = { version = "2", features = ["full"] }
quote = "1"
proc-macro2 = "1"
