[package]
name = "mole_rs"
version = "0.1.0"
edition = "2021"
publish = false

[dependencies]
clap = { version = "4", features = ["derive"] }
colored = "2"
crossterm = "0.27"
ctrlc = "3"
dirs = "5"
humansize = "2"
libc = "0.2"
ratatui = "0.26"
serde = { version = "1", features = ["derive"] }
sysinfo = "0.30"
thiserror = "1"
toml = "0.8"
tracing = "0.1"
tracing-subscriber = "0.3"
walkdir = "2"

[dev-dependencies]
tempfile = "3"
