[package]
name = "vwrap"
version = "0.1.0"
edition = "2021"
publish = false

[dependencies]
clang = { version = "*", features = ["runtime", "clang_10_0"] }
clang-sys = { version = "*", features = ["runtime", "clang_10_0"] }
