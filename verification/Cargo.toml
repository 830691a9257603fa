[package]
name = "gpkg"
version = "0.1.0"
edition = "2021"
publish = false

[dependencies]
geo-types = "*"
rusqlite = { version = "*", features = ["bundled"] }
