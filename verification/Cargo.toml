[package]
name = "async_which"
version = "0.1.0"
edition = "2021"
publish = false

[dependencies]
regex = "*"
libc = "*"
tokio = { version = "*", features = ["fs", "macros", "rt", "rt-multi-thread"] }
