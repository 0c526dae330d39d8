[package]
name = "indexnow_updater"
version = "1.0.1"
edition = "2021"
publish = false

[dependencies]
rusqlite = { version = "*", features = ["bundled"] }
sha2 = "*"
hex = "*"
url = "*"
regex = "*"
getopts = "*"
walkdir = "*"
reqwest = { version = "*", default-features = false, features = ["blocking"] }
serde = { version = "*", features = ["derive"] }
serde_yaml = "*"
serde_json = "*"
