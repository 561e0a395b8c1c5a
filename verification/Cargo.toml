[package]
name = "algor"
version = "0.1.0"
edition = "2021"
publish = false

[dependencies]
iced = { version = "=0.13.1", default-features = false, features = ["tiny-skia", "tokio"] }
iced_aw = { version = "=0.12.2", default-features = false, features = ["number_input", "quad"] }
iced_futures = "=0.13.2"
rfd = { version = "=0.15.4", default-features = false, features = ["xdg-portal", "tokio"] }
serde = { version = "1", features = ["derive"] }
tokio = { version = "1", features = ["fs", "io-util"] }
toml = "0.8"
xml-rs = "0.8"
