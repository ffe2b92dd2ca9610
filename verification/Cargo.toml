[package]
name = "aya-minifirewall"
version = "0.1.0"
edition = "2021"
publish = false

[dependencies]
anyhow = "=1.0.104"
aya-ebpf = "=0.1.1"
aya-log-ebpf = "=0.1.0"
clap = { version = "=4.6.7", features = ["derive"] }
ctrlc = "=3.5.2"
env_logger = "=0.11.11"
log = "=0.4.34"
network-types = "=0.2.0"
