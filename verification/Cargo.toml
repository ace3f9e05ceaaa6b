[package]
name = "pglance"
version = "0.1.0"
edition = "2021"
publish = false

[dependencies]
arrow = { version = "58", default-features = false }
async-trait = "0.1"
chrono = "0.4"
futures = "0.3"
lance-namespace = { version = "=7.1.0", default-features = false }
pgrx = { version = "=0.14.3", default-features = false, features = ["pg17"] }
serde_json = "1"
tokio = { version = "1", features = ["rt-multi-thread"] }
