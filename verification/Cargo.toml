[package]
name = "rig_cat"
version = "0.1.0"
edition = "2021"
publish = false

[dependencies]
comp-cat-rs = "=0.1.0"
serde = { version = "=1.0.229", features = ["derive"] }
serde_json = "=1.0.154"
ureq = { version = "=3.5.1", features = ["json"] }
