[package]
name = "panel_widgets"
version = "0.1.0"
edition = "2021"
publish = false

[dependencies]
anyhow = "1"
base64 = "0.21"
cached = { version = "*", features = ["async"] }
chrono = { version = "0.4", features = ["serde"] }
clap = { version = "4", features = ["derive"] }
dirs = "*"
dotenv = "0.15"
jmap-client = "*"
palette = "0.7"
png = "0.17"
raqote = { version = "0.8", default-features = false }
reqwest = { version = "0.11", default-features = false, features = ["json", "rustls-tls"] }
serde = { version = "1", features = ["derive"] }
serde_json = "1"
suncalc = "*"
tokio = { version = "1", features = ["macros", "rt-multi-thread", "time"] }
uom = "*"
webp = "*"
