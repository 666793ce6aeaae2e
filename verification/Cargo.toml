[package]
name = "sipmon"
version = "0.1.0"
edition = "2021"
publish = false

[dependencies]
anyhow = "1"
chrono = "0.4"
clap = { version = "4", features = ["derive"] }
crossterm = "*"
etherparse = "*"
libc = "0.2"
pcap = "*"
ratatui = "*"
rusqlite = { version = "*", features = ["bundled"] }
serde_json = "1"
