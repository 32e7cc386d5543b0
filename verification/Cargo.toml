[package]
name = "cargo_no_std_check"
version = "0.1.0"
edition = "2021"
publish = false

[dependencies]
anyhow = "1"
cargo_metadata = "*"
console = "*"
indicatif = "*"
rustc_version = "*"
tempdir = "*"
tracing = "*"
walkdir = "2"
