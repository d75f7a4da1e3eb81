[package]
name = "klata"
version = "0.1.0"
edition = "2021"
publish = false

[dependencies]
chrono = "0.4"
serde = { version = "1", features = ["derive"] }
bincode = "1"
sled = "0.34"
dirs = "5"
clap = { version = "4", features = ["derive"] }
crossterm = "0.25"
tui = "0.19"
