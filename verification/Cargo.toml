[package]
name = "werewolf"
version = "0.1.0"
edition = "2021"
publish = false

[dependencies]
rand = "0.8"
bincode = "1"
serde = { version = "1", features = ["derive"] }
parking_lot = "0.12"
termcolor = "1"
clap = "3"
