[package]
name = "polymix_update"
version = "0.2.0"
edition = "2021"
publish = false

[dependencies]
glob = "*"
anyhow = "*"
chrono = "*"
serde = { version = "*", features = ["derive"] }
serde_json = "*"
tiberius = { version = "*", features = ["sql-browser-tokio", "chrono"] }
tokio = { version = "*", features = ["rt", "macros", "net", "io-util"] }
tokio-util = { version = "*", features = ["compat"] }
