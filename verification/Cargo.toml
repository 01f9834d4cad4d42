[package]
name = "daily_tasks_management"
version = "0.1.0"
edition = "2021"
publish = false

[dependencies]
chrono = "0.4"
git2 = { version = "*", default-features = false }
nix = { version = "*", features = ["signal", "process"] }
rusqlite = { version = "*", features = ["bundled"] }
serde = { version = "1", features = ["derive"] }
sysinfo = "0.30"
tokio = { version = "1", features = ["process", "io-util", "sync", "rt", "time"] }

[dev-dependencies]
tempfile = "3"
