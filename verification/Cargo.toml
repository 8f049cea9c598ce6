[package]
name = "arkiv_katalog"
version = "0.1.0"
edition = "2021"
publish = false

[dependencies]
hashbrown = "=0.16.1"
rustc-hash = "=2.1.3"
toml = "=0.9.12"
iced = { version = "=0.14.0", default-features = false, features = ["tiny-skia", "x11", "image-without-codecs", "svg", "thread-pool"] }
clap = { version = "=4.6.7", features = ["derive"] }
color-eyre = "=0.6.5"
env_logger = "=0.11.11"
log = "=0.4.34"
mimalloc = "=0.1.52"
tap = "=1.0.1"
xdg = "=3.0.0"
