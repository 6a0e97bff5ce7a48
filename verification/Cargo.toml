[package]
name = "orbit"
version = "0.1.0"
edition = "2021"
publish = false

[dependencies]
anyhow = "1"
async-trait = "*"
chrono = { version = "0.4", features = ["serde"] }
dirs = "*"
gio = "*"
glib = "*"
gtk4 = "*"
libadwaita = "*"
rusqlite = { version = "*", features = ["bundled"] }
serde = { version = "1", features = ["derive"] }
serde_json = "1"
thiserror = "*"
tokio = { version = "1", features = ["full"] }
tokio-util = "*"
walkdir = "2"
