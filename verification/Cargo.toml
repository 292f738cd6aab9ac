[package]
name = "nezumi_ai_core"
version = "0.1.0"
edition = "2021"
publish = false

[dependencies]
tokio = { version = "1", features = ["rt-multi-thread", "macros", "sync", "process", "io-util", "signal", "time"] }
futures = "0.3"
async-stream = "0.3"
async-trait = "0.1"
thiserror = "*"
serde = { version = "1", features = ["derive"] }
toml = "*"
ctrlc = "*"
crossterm = "*"
ratatui = "*"
windows-sys = { version = "*", features = ["Win32_System_Console"] }
sqlx = { version = "*", default-features = false, features = ["sqlite", "runtime-tokio"] }
