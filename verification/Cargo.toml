[package]
name = "mtp_mount"
version = "0.5.0"
edition = "2021"
publish = false

[dependencies]
mtp-rs = { version = "=0.28.0", features = ["virtual-device"] }
fuser = { version = "0.18", default-features = false }
tokio = { version = "=1.54.1", features = ["rt-multi-thread", "time", "signal", "macros"] }
bytes = "=1.12.1"
futures = "=0.3.34"
libc = "=0.2.191"
log = "=0.4.35"
env_logger = "=0.11.11"
clap = { version = "=4.6.7", features = ["derive"] }
tempfile = "=3.27.0"
thiserror = "=2.0.21"
