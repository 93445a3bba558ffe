[package]
name = "libsql_plugin"
version = "1.0.0"
edition = "2021"
publish = false

[dependencies]
base64 = "0.22"
serde_json = "1"
rusqlite = { version = "0.32", features = ["bundled"] }
ureq = { version = "2", features = ["json"] }
