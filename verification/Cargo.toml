[package]
name = "rust_lib_flutter_alacritty"
version = "0.2.0"
edition = "2021"
publish = false

[dependencies]
alacritty_terminal = "0.25"
