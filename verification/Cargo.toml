[package]
name = "data_collection"
version = "0.1.0"
edition = "2021"
publish = false

[dependencies]
serde_json = "*"
serde = { version = "*", features = ["derive"] }
reqwest = { version = "*", default-features = false }
select = "*"
tokio = { version = "*", features = ["rt-multi-thread", "macros"] }
