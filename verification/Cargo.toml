[package]
name = "reminders"
version = "0.1.0"
edition = "2021"
publish = false

[dependencies]
chrono = "*"
tokio = { version = "*", features = ["rt-multi-thread", "macros", "time", "io-std", "io-util"] }
tokio-postgres = { version = "*", features = ["with-chrono-0_4"] }
