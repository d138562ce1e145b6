[package]
name = "dprint-shfmt"
version = "0.1.0"
edition = "2021"
publish = false

[dependencies]
dprint-core = { version = "0.43", default-features = false, features = ["process"] }
serde = { version = "=1.0.229", features = ["derive"] }
structopt = "=0.3.26"
tempfile = "=3.27.0"
