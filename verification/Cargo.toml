[package]
name = "webdav_multistatus"
version = "0.1.0"
edition = "2021"
publish = false

[dependencies]
xmlparser = "*"
remotefs = "*"
rustydav = "*"
