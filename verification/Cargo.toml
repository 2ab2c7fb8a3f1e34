[package]
name = "pdf_tui"
version = "0.1.0"
edition = "2021"
publish = false

[dependencies]
sha2 = "=0.10.9"
hex = "=0.4.3"
serde = { version = "=1.0.229", features = ["derive"] }
toml = "=0.8.23"
clap = { version = "=4.6.7", features = ["derive"] }
anyhow = "=1.0.104"
unicode-width = "=0.2.3"
zstd = { version = "=0.13.4", default-features = false, features = ["zstdmt"] }
