[package]
name = "nv_driver_helper"
version = "0.1.0"
edition = "2021"
publish = false

[dependencies]
csv = "*"
serde_json = "*"
serde = { version = "*", features = ["derive"] }
confy = "*"
reqwest = { version = "*", default-features = false, features = ["blocking", "json"] }
