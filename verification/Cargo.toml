[package]
name = "buffer_pool"
version = "0.1.0"
edition = "2021"
publish = false

[dependencies]
branches = "*"
libc = "0.2"
tracing = "0.1"

[dev-dependencies]
rustc-hash = "2"
shuttle = "*"
