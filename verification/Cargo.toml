[package]
name = "billing_pipeline"
version = "0.1.0"
edition = "2021"
publish = false

[dependencies]
kafka = { version = "*", default-features = false }

[dev-dependencies]
serde_json = "*"
