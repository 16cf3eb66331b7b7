[package]
name = "gest"
version = "0.1.0"
edition = "2021"
publish = false

[dependencies]
axum = "0.8"
chrono = { version = "0.4", features = ["serde"] }
clap = "4"
libsql = { version = "*", default-features = false, features = ["core", "remote"] }
log = "0.4"
serde = { version = "1", features = ["derive"] }
serde_json = "1"
tempfile = "3"
thiserror = "2"
toml = "*"
yaml_serde = "*"
yansi = { version = "1", features = ["hyperlink"] }
