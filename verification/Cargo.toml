[package]
name = "geo_scalars"
version = "0.1.0"
edition = "2021"
publish = false

[dependencies]
geo = { version = "=0.24.1", default-features = false }
geohash = "=0.12.0"
h3o = "0.1"
once_cell = "=1.21.4"
