[package]
name = "fischy"
version = "0.1.0"
edition = "2021"
publish = false

[dependencies]
rand = "*"
sysinfo = "*"
image = { version = "*", default-features = false }
xcap = "*"
enigo = "*"
rdev = "*"
window_raiser = "*"
clap = { version = "*", features = ["derive"] }
log = "*"
env_logger = "*"
