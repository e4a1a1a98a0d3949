[package]
name = "evil"
version = "0.1.0"
edition = "2021"
publish = false

[dependencies]
axum = "0.8"
rand = "0.9"
thiserror = "2"
tokio = { version = "1", features = ["macros", "net", "rt-multi-thread", "time"] }
