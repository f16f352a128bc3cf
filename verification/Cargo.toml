[package]
name = "resizeimg"
version = "0.1.0"
edition = "2021"
publish = false

[dependencies]
anyhow = "*"
axum = "*"
bytes = "*"
clap = { version = "*", features = ["derive"] }
env_logger = "*"
image = { version = "*", default-features = false, features = ["jpeg", "png", "webp", "avif"] }
libvips = "*"
log = "*"
regex = "*"
reqwest = { version = "*", default-features = false, features = ["rustls-tls", "gzip", "brotli", "deflate"] }
serde = { version = "*", features = ["derive"] }
tokio = { version = "*", features = ["rt-multi-thread", "net", "macros", "time"] }
toml = "*"
