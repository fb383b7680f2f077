[package]
name = "quantsum"
version = "0.1.0"
edition = "2021"
publish = false

[dependencies]
bincode = "1"
byteorder = "1"
clap = { version = "4", features = ["derive"] }
rand = "0.8"
serde = { version = "1", features = ["derive"] }
toml = "0.8"
