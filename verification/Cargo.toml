[package]
name = "chum"
version = "0.1.0"
edition = "2021"
publish = false

[dependencies]
rand = "0.8"
uuid = { version = "1", features = ["v4"] }
chrono = "0.4"
clap = "2.34"
curl = "0.4"
rusoto_core = "0.42"
rusoto_credential = "0.42"
rusoto_s3 = "0.42"
