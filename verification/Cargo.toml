[package]
name = "tuxtests"
version = "0.1.0"
edition = "2021"
publish = false

[dependencies]
reqwest = { version = "0.12", default-features = false, features = ["json"] }
serde = { version = "1", features = ["derive"] }
serde_json = "1"
toml = "0.8"
directories = "5"
keyring = "3"
sysinfo = "0.30"
clap = { version = "4", features = ["derive"] }
tokio = { version = "1", features = ["macros", "rt-multi-thread", "sync", "time"] }
ollama-rs = { version = "0.2", default-features = false }
ratatui = "0.26"
crossterm = "0.27"
udev = "0.8"
