[package]
name = "gif_encoder"
version = "0.1.0"
edition = "2021"
publish = false

[dependencies]
gif = "0.13"
color_quant = "1.1"
base64 = "0.22"
clipboard = "0.5"
wasm-bindgen = "0.2"
js-sys = "0.3"
web-sys = { version = "0.3", features = ["console"] }
console_error_panic_hook = "0.1"
