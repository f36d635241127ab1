[package]
name = "infra_health_agent"
version = "0.1.0"
edition = "2021"
publish = false

[dependencies]
hostname = "*"
async-trait = "*"
chrono = "*"
clap = { version = "*", features = ["derive", "env"] }
serde = { version = "*", features = ["derive"] }
serde_json = "*"
sysinfo = "*"
thiserror = "*"
tokio = { version = "*", features = ["rt-multi-thread", "macros", "time", "fs"] }
