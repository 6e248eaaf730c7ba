[package]
name = "aprs"
version = "0.1.0"
edition = "2021"
publish = false

[dependencies]
num = "0.4"
uuid = { version = "1", features = ["v4"] }
indexmap = "2"
flate2 = "1"
zip = { version = "2", default-features = false, features = ["deflate"] }
byteorder = "1"
clap = { version = "4", features = ["derive"] }
serde = { version = "1", features = ["derive"] }
serde_json = "1"
sha1 = "0.10"
hex = "0.4"
