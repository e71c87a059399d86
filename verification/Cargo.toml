[package]
name = "mdpdf"
version = "0.2.0"
edition = "2021"
publish = false

[dependencies]
pulldown-cmark = "=0.13.6"
anyhow = "=1.0.104"
clap = { version = "=4.6.7", features = ["derive"] }
serde = { version = "=1.0.229", features = ["derive"] }
toml = "=0.8.23"
typst = "=0.14.2"
typst-pdf = "=0.14.2"
