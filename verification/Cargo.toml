[package]
name = "virtio_snd"
version = "0.1.0"
edition = "2021"
publish = false

[dependencies]
crossbeam-channel = "0.5"
log = "0.4"
pipewire = "0.8"
thiserror = "1.0"
vm-memory = { version = "0.16", features = ["backend-mmap"] }
