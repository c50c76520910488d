[package]
name = "core_text_runs"
version = "0.1.0"
edition = "2021"
publish = false

[dependencies]
core-foundation = "*"
core-graphics = "*"
core-text = "*"
harfbuzz-sys = "*"
