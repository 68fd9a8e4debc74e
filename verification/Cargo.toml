[package]
name = "omengrep"
version = "0.1.0"
edition = "2021"
publish = false

[dependencies]
anyhow = "=1.0.104"
hf-hub = "=0.4.3"
ignore = "=0.4.33"
ndarray = "=0.17.2"
tokenizers = "=0.23.2"
