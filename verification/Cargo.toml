[package]
name = "cce-display-manager"
version = "0.1.0"
edition = "2021"
publish = false

[dependencies]
calloop = "=0.14.5"
env_logger = "=0.11.11"
libc = "=0.2.191"
log = "=0.4.35"
pam-sys = "=0.5.6"
serde = { version = "=1.0.229", features = ["derive"] }
serde_json = "=1.0.154"
users = "=0.11.0"
wayland-client = "=0.31.15"
zbus = "5"
