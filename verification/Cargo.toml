[package]
name = "linkers"
version = "0.1.0"
edition = "2021"
publish = false

[dependencies]
async-once-cell = "*"
chrono = "0.4"
http = "0.2"
once_cell = "1"
regex = "1"
reqwest = "0.11"
serde = { version = "1", features = ["derive"] }
serde_json = "1"
serde_urlencoded = "0.7"
thiserror = "1"
tokio = { version = "1", features = ["macros", "rt-multi-thread", "time"] }
url = "2"
urlencoding = "2"
