[package]
name = "ta_signals"
version = "0.1.0"
edition = "2021"
publish = false

[dependencies]
tokio = { version = "*", features = ["rt-multi-thread", "macros"] }
yahoo_finance_api = "*"
