[package]
name = "voss"
version = "0.1.0"
edition = "2021"
publish = false

[dependencies]
actix = "*"
actix-rt = "*"
actix-web = "*"
actix-web-actors = "*"
rand = "*"
rocksdb = "*"
