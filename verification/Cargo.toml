[package]
name = "ponchi"
version = "0.1.0"
edition = "2021"
publish = false

[dependencies]
serde = { version = "1", features = ["derive"] }
serde_json = "1"
unicode-width = "*"
dagre = "*"
roughr = "*"
usvg = "*"
resvg = "*"
tiny-skia = "*"
tiny_http = "*"
wasm-bindgen = "0.2"
