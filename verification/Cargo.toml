[package]
name = "mcmod_run"
version = "0.1.0"
edition = "2021"
publish = false

[dependencies]
clap = { version = "4", features = ["derive"] }
tokio = { version = "1", features = ["fs", "io-util", "macros", "process", "rt-multi-thread"] }
