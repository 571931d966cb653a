[package]
name = "jp_landxml"
version = "0.1.0"
edition = "2021"
publish = false

[dependencies]
regex = "1"
serde = { version = "1", features = ["derive"] }
serde_json = "1"
quick-xml = "0.31"
thiserror = "1"
rayon = "1"
clap = { version = "4", features = ["derive"] }
gdal = "0.17"
