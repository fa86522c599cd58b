[package]
name = "lune_std_ffi"
version = "0.1.0"
edition = "2021"
publish = false

[dependencies]
bstr = "1"
bytes = "1"
libffi = "3"
mlua = { version = "0.9", features = ["luau", "async"] }
num = "0.4"
tokio = { version = "1", default-features = false, features = ["io-util"] }
