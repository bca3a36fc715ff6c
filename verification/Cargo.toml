[package]
name = "post_gen"
version = "0.1.0"
edition = "2021"
publish = false

[dependencies]
chrono = { version = "0.4", default-features = false, features = ["clock", "std"] }
dialoguer = "0.11"
structopt = "0.3"
