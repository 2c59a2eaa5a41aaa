[package]
name = "gif_caption"
version = "0.1.0"
edition = "2021"
publish = false

[dependencies]
gif = "0.13"
wasm-bindgen = "0.2"
web-sys = { version = "0.3", features = ["CanvasRenderingContext2d", "Document", "Element", "HtmlCanvasElement", "ImageData", "Window"] }
