[package]
name = "mwlint_web"
version = "0.1.0"
edition = "2021"
publish = false

[dependencies]
mediawiki_parser = "0.4.2"
rocket = "0.5"
serde = { version = "1", features = ["derive"] }
serde_json = "1"
