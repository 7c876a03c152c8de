[package]
name = "restc"
version = "0.1.0"
edition = "2021"
publish = false

[dependencies]
anyhow = "=1.0.104"
clap = { version = "=4.6.7", features = ["derive"] }
colored = "=2.2.0"
inkwell = { version = "=0.5.0", features = ["llvm14-0-prefer-dynamic"] }
libc = "=0.2.191"
lazy_static = "=1.5.1"
tiny_http = "=0.12.0"
