[package]
name = "pi_stats"
version = "0.1.0"
edition = "2021"
publish = false

[dependencies]
tokio = { version = "1.53.2", features = ["macros", "rt-multi-thread", "time"] }
