[package]
name = "palantir"
version = "0.1.0"
edition = "2021"
publish = false

[dependencies]
ahash = "0.8"
bollard = "0.16"
clap = { version = "4", features = ["derive"] }
color-eyre = "0.6"
ctrlc = "3"
dotenvy = "0.15"
futures-util = "0.3"
hostname = "0.3"
if-addrs = "0.10"
libc = "0.2"
libmdns = "0.7"
nvml-wrapper = "0.10"
once_cell = "1"
procfs = "0.16"
regex = "1"
sysconf = "0.3"
thiserror = "1"
tokio = { version = "1", features = ["full"] }
tracing = "0.1"
tracing-subscriber = "0.3"
warp = "0.3"
