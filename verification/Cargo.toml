[package]
name = "axelrod_model_simulation"
version = "0.1.0"
edition = "2021"
publish = false

[dependencies]
rand = { version = "0.8", default-features = false }
rand_pcg = "0.3"
serde = { version = "1", features = ["derive"] }
serde_json = "1"
