[package]
name = "herdr-comments"
version = "0.1.0"
edition = "2021"
publish = false

[dependencies]
anyhow = "1"
clap = { version = "4", features = ["derive"] }
crossterm = "0.28"
ratatui = "0.29"
ansi-to-tui = "7"
noyalib = "*"
serde = { version = "1", features = ["derive"] }
serde_json = "1"
sha2 = "0.10"
unicode-width = "0.2"
uuid = { version = "1", features = ["v4"] }
