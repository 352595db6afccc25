[package]
name = "tui-input"
version = "0.1.0"
edition = "2021"
publish = false

[dependencies]
unicode-width = "*"
serde = { version = "1", features = ["derive"] }
ratatui = { version = "*", features = ["crossterm", "termion"] }
