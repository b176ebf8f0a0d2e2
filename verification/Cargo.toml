[package]
name = "vmm_core"
version = "0.1.0"
edition = "2021"
publish = false

[dependencies]
libc = "*"
nix = { version = "*", features = ["fs", "mman", "net", "poll", "socket", "uio"] }
rand = "*"
vhost = { version = "*", features = ["vhost-user-frontend"] }
virtio-bindings = "*"
vm-memory = { version = "*", features = ["backend-mmap"] }
vmm-sys-util = "*"
