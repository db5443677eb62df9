[package]
name = "deck_remap"
version = "0.1.0"
edition = "2021"
publish = false

[dependencies]
evdev = { version = "*", features = ["tokio"] }
tokio = { version = "*", features = ["rt-multi-thread", "macros", "process"] }
serde = { version = "*", features = ["derive"] }
toml = "*"
dirs = "*"
color-eyre = "*"
