[package]
name = "safina_db"
version = "0.1.0"
edition = "2021"
publish = false

[dependencies]
bincode = "1.3"
clap = "4"
once_cell = "1"
serde = { version = "1", features = ["derive"] }
shlex = "1"
