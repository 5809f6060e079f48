[package]
name = "javagxc"
version = "0.1.0"
edition = "2021"
publish = false

[dependencies]
inkwell = { version = "=0.5.0", features = ["llvm14-0-force-dynamic"] }
