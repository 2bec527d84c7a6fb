[package]
name = "mmtc"
version = "0.1.0"
edition = "2021"
publish = false

[dependencies]
tui = { version = "0.19", default-features = false }
serde = { version = "1", features = ["derive"] }
clap = { version = "4", features = ["derive"] }
