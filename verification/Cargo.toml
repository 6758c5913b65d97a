[package]
name = "aevum"
version = "0.1.0"
edition = "2021"
publish = false

[dependencies]
chrono = { version = "*", features = ["serde"] }
crossterm = "*"
csv = "*"
icalendar = "*"
ratatui = "*"
serde = { version = "*", features = ["derive"] }
serde_json = "*"
