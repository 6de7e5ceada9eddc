[package]
name = "mdbook"
version = "0.1.0"
edition = "2021"
publish = false

[dependencies]
pulldown-cmark = "0.9"
sha2 = "0.10"
hex = "0.4"
pathdiff = "0.2"
