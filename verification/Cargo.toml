[package]
name = "filestore"
version = "0.1.0"
edition = "2021"
publish = false

[dependencies]
md-5 = "0.10"
sha2 = "0.10"
uuid = { version = "1", features = ["v4"] }
chrono = "0.4"
anyhow = "1"
async-trait = "0.1"
bytes = "1"
rusoto_core = { version = "0.48", default-features = false, features = ["rustls"] }
rusoto_s3 = { version = "0.48", default-features = false, features = ["rustls"] }
structopt = "0.3"
thiserror = "1"
tokio = { version = "1", features = ["io-util", "rt", "macros"] }
walkdir = "2"
