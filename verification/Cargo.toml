[package]
name = "rich_rust"
version = "0.1.0"
edition = "2021"
publish = false

[dependencies]
unicode-width = "0.1"
num-rational = { version = "0.4", default-features = false }
crossterm = "0.27"
serde_json = "1"
pulldown-cmark = { version = "0.10", default-features = false }
