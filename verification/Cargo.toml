[package]
name = "contents_exporter"
version = "0.1.0"
edition = "2021"
publish = false

[dependencies]
clap = { version = "4", features = ["derive"] }
comrak = { version = "0.15", default-features = false }
glob = "0.3"
