[package]
name = "tilegame"
version = "0.1.0"
edition = "2021"
publish = false

[dependencies]
bytemuck = { version = "=1.25.2", features = ["extern_crate_alloc"] }
anyhow = "=1.0.104"
alsa = "=0.9.1"
libloading = "=0.8.9"
memmap2 = "=0.9.12"
rustix = { version = "=1.1.6", features = ["fs"] }
tracing = "=0.1.44"
tracing-subscriber = { version = "=0.3.23", features = ["env-filter"] }
wayland-client = "=0.31.15"
wayland-protocols = { version = "=0.32.13", features = ["client"] }
