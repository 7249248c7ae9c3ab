[package]
name = "ide"
version = "0.1.0"
edition = "2021"
publish = false

[dependencies]
uuid = { version = "*", features = ["v4"] }
futures = "*"
flo_stream = "*"
nalgebra = "*"
web-sys = { version = "*", features = ["Event", "KeyboardEvent"] }
