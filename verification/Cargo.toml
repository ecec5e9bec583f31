[package]
name = "photo_importer"
version = "0.1.0"
edition = "2021"
publish = false

[dependencies]
walkdir = "*"
threadpool = "*"
exiftool = "*"
rexiv2 = "*"
