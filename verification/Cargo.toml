[package]
name = "proc_manager"
version = "0.1.0"
edition = "2021"
publish = false

[dependencies]
anyhow = "1"
bollard = "0.19"
crossterm = "0.28"
directories = "6"
futures-util = "0.3"
netstat2 = "0.11"
ratatui = "0.29"
serde = { version = "1", features = ["derive"] }
sqlx = { version = "0.8", default-features = false, features = ["sqlite", "runtime-tokio"] }
ssh2 = "0.9"
sysinfo = "0.33"
thiserror = "2"
tokio = { version = "1", features = ["full"] }
toml = "0.8"
tracing = "0.1"
tracing-subscriber = { version = "0.3", features = ["env-filter"] }
