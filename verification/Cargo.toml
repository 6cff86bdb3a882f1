[package]
name = "prettify_cmark"
version = "0.1.0"
edition = "2021"
publish = false

[dependencies]
pulldown-cmark = "0.1"
