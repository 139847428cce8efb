[package]
name = "reniced"
version = "0.1.0"
edition = "2021"
publish = false

[dependencies]
regex = "1"
anyhow = "1"
thiserror = "*"
log = "0.4"
env_logger = "*"
syslog = "*"
libc = "0.2"
sysinfo = "*"
clap = { version = "4", features = ["derive"] }
clap_complete = "4"
clap-version-flag = "*"
