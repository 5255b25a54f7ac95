[package]
name = "cor_convert"
version = "0.1.0"
edition = "2021"
publish = false

[dependencies]
clap = { version = "=4.6.7", features = ["derive"] }
dxf = "=0.6.2"
rustc_apfloat = "*"
