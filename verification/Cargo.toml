[package]
name = "llm_repl"
version = "0.1.0"
edition = "2021"
publish = false

[dependencies]
futures = "0.3"
reqwest = { version = "0.12", default-features = false, features = ["stream"] }
signal-hook = "0.3"
tokio = { version = "1", features = ["rt-multi-thread", "macros", "time"] }
