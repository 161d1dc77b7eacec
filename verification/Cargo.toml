[package]
name = "scatto"
version = "0.1.0"
edition = "2021"
publish = false

[dependencies]
anyhow = "1"
cairo-rs = "0.20"
pango = "0.20"
pangocairo = "0.20"
serde = { version = "1", features = ["derive"] }
toml = "0.8"
x11rb = { version = "0.13", features = ["randr", "image"] }
