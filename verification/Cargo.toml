[package]
name = "game_of_life"
version = "0.1.0"
edition = "2021"
publish = false

[dependencies]
js-sys = "=0.3.106"
uuid = "=1.29.0"
wasm-bindgen = "=0.2.129"
