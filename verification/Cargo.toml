[package]
name = "portside-tui"
version = "0.5.0"
edition = "2021"
publish = false

[dependencies]
time = { version = "=0.3.55", features = ["macros", "formatting", "parsing", "local-offset"] }
rusqlite = { version = "=0.41.1", features = ["bundled"] }
ratatui = "=0.30.2"
crossterm = "=0.29.0"
directories = "=6.0.0"
serde = { version = "=1.0.229", features = ["derive"] }
toml = "=1.1.8"
clap = { version = "=4.6.7", features = ["derive"] }
notify-rust = "=4.18.2"
discord-rich-presence = "=1.1.0"
tui-big-text = "=0.8.10"
ratatui-textarea = "=0.9.4"
ratatui-toaster = "=0.1.4"
tui-scrollview = "=0.6.8"
zbus = { version = "=5.19.0", default-features = false, features = ["async-io", "blocking-api"] }
