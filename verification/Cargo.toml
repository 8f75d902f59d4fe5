[package]
name = "grammers_friendly"
version = "0.1.0"
edition = "2021"
publish = false

[dependencies]
regex = "1"
tokio = { version = "1", features = ["rt", "rt-multi-thread", "macros", "signal", "sync"] }
log = "0.4"
