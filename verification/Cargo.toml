[package]
name = "media_segmenter"
version = "0.1.0"
edition = "2021"
publish = false

[dependencies]
axum = "*"
axum_typed_multipart = "*"
bytes = "*"
flate2 = "*"
tar = "*"
tempfile = "*"
tokio = { version = "*", features = ["macros", "rt-multi-thread", "net"] }
tracing = "*"
tracing-subscriber = "*"
