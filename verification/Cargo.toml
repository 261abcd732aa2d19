[package]
name = "typeracer"
version = "0.1.0"
edition = "2021"
publish = false

[dependencies]
clap = "3"
crossbeam-channel = "0.5"
directories-next = "2"
git2 = { version = "*", default-features = false }
itertools = "0.10"
rand = "0.8"
refinery = { version = "*", features = ["rusqlite"] }
rusqlite = "*"
serde = { version = "1", features = ["derive"] }
termion = "1.5"
toml = "0.5"
tui = { version = "0.19", default-features = false, features = ["termion"] }
unicode-segmentation = "1"
unicode-width = "0.1"
