[package]
name = "rclone_mounts_core"
version = "0.1.0"
edition = "2021"
publish = false

[dependencies]
async-io = "=2.6.0"
async-trait = "=0.1.92"
enumflags2 = "=0.7.12"
serde = { version = "=1.0.229", features = ["derive"] }
serde_json = "=1.0.154"
tempfile = "=3.27.0"
thiserror = "=1.0.69"
toml = "=0.8.23"
tracing = "=0.1.44"
tracing-subscriber = { version = "=0.3.23", features = ["env-filter", "fmt"] }
zbus = "=5.19.0"
zbus_polkit = "=5.1.0"
