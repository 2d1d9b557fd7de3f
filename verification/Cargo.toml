[package]
name = "find_id"
version = "0.1.0"
edition = "2021"
publish = false

[dependencies]
roxmltree = "*"
glob = "*"
rayon = "*"
