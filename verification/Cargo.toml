[package]
name = "reg_sort"
version = "0.1.0"
edition = "2021"
publish = false

[dependencies]
notify = "*"
regex = "*"
serde = { version = "*", features = ["derive"] }
toml = "*"
tracing = "*"
tracing-subscriber = "*"
walkdir = "*"
