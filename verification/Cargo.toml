[package]
name = "range_delete"
version = "0.1.0"
edition = "2021"
publish = false

[dependencies]
indicatif = "0.17"
tikv-client = "0.3"
tokio = { version = "1", features = ["macros", "rt-multi-thread"] }
