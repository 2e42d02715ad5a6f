[package]
name = "druid_table"
version = "0.1.0"
edition = "2021"
publish = false

[dependencies]
druid = { version = "0.7", features = ["im"] }
im = "15"
lazy_static = "1"
log = "0.4"
