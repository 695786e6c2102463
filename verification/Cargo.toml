[package]
name = "aframe"
version = "0.1.0"
edition = "2021"
publish = false

[dependencies]
async-lock = "*"
futures = "*"
js-sys = "*"
serde = { version = "*", features = ["derive"] }
serde-wasm-bindgen = "*"
wasm-bindgen = "*"
web-sys = { version = "*", features = ["Window", "Document", "Element", "HtmlElement", "HtmlHeadElement", "Node"] }
yew = "*"
