[package]
name = "music_library"
version = "0.1.0"
edition = "2021"
publish = false

[dependencies]
aws-sdk-s3 = { version = "1", default-features = false, features = ["behavior-version-latest"] }
log = "0.4"
rand = "0.8"
spacetimedb = "1"
