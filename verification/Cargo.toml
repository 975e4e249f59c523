[package]
name = "hermit_kernel"
version = "0.1.0"
edition = "2021"
publish = false

[dependencies]
rand_chacha = "=0.10.0"
zeroize = "=1.8.2"
shell-words = "=1.1.1"
hashbrown = "=0.17.1"
ahash = { version = "=0.8.12", default-features = false }
heapless = "=0.8.0"
embedded-io = "=0.7.1"
thiserror = "=2.0.21"
virtio-spec = "*"
hermit-sync = "=0.2.0"
smoltcp = { version = "=0.12.0", default-features = false, features = ["proto-ipv4", "proto-ipv6", "medium-ethernet"] }
