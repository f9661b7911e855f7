[package]
name = "notebook_editor"
version = "0.1.0"
edition = "2021"
publish = false

[dependencies]
anyhow = "1"
futures = "0.3"
jupyter-protocol = "=1.2.2"
nbformat = "=1.1.0"
serde_json = "=1.0.154"
uuid = { version = "=1.29.0", features = ["v4"] }
