[package]
name = "wlproxy"
version = "0.1.0"
edition = "2021"
publish = false

[dependencies]
aargvark = "*"
clap = { version = "4", features = ["derive"] }
defer = "*"
libc = "0.2"
rustix = { version = "*", features = ["fs"] }
sd-notify = "*"
uds = "*"
