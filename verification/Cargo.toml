[package]
name = "jex_core"
version = "0.27.0"
edition = "2021"
publish = false

[dependencies]
quick-xml = "0.31"
serde = { version = "1", features = ["derive"] }
serde_json = "1"
toml = "0.8"
dirs = "5"
reqwest = { version = "0.12", default-features = false, features = ["blocking", "json"] }
clap = { version = "4", features = ["derive"] }
clap_complete = "4"
crossterm = "0.28"
ratatui = "0.29"
notify = "6"
atty = "0.2"
