[package]
name = "objc_bindgen"
version = "0.1.0"
edition = "2021"
publish = false

[dependencies]
lazy_static = "1"
objc = "0.2"
proc-macro2 = "1"
quote = "1"
syn = { version = "1", features = ["full"] }
