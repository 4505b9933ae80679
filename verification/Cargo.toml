[package]
name = "chatapp"
version = "0.1.0"
edition = "2021"
publish = false

[dependencies]
bincode = "1.3"
crossbeam = "0.8"
crossterm = "0.25"
serde = { version = "1", features = ["derive"] }
tui = "0.19"
