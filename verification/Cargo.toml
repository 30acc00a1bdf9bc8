[package]
name = "cloudflare_showcase"
version = "0.1.0"
edition = "2021"
publish = false

[dependencies]
askama = "*"
base64 = "*"
console_error_panic_hook = "*"
cookie = { version = "*", features = ["signed", "key-expansion"] }
js-sys = "*"
minijinja = "*"
once_cell = "*"
regex = "*"
serde = { version = "*", features = ["derive"] }
serde_json = "*"
serde-wasm-bindgen = "*"
uuid = { version = "*", features = ["v4"] }
wasm-bindgen = "*"
worker = "*"
