[package]
name = "ndproxy"
version = "0.1.0"
edition = "2021"
publish = false

[dependencies]
tokio = { version = "*", features = ["rt", "macros", "net", "sync", "time", "io-util"] }
futures = "*"
socket2 = { version = "*", features = ["all"] }
libc = "*"
classic_bpf = "*"
pnet = "*"
config = "*"
clap = { version = "*", features = ["derive"] }
log = "*"
pretty_env_logger = "*"
ipnet = "*"
address_translation = "*"
