[package]
name = "vmm"
version = "0.1.0"
edition = "2021"
publish = false

[dependencies]
anyhow = "1"
epoll = "4"
libc = "0.2"
log = "0.4"
seccompiler = "*"
serde = { version = "1", features = ["derive"] }
serde_json = "1"
signal-hook = "0.3"
thiserror = "2"
vm-memory = "0.16"
vmm-sys-util = "0.12"
