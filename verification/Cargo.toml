[package]
name = "gitcop"
version = "0.1.0"
edition = "2021"
publish = false

[dependencies]
indexmap = { version = "2", features = ["serde"] }
clap = "4"
serde = { version = "1", features = ["derive"] }
tokio = { version = "1", features = ["macros", "process", "rt-multi-thread", "sync"] }
toml = "0.8"
futures = "0.3"
yansi = "1"
