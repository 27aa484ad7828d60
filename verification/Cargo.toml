[package]
name = "harnel"
version = "0.1.0"
edition = "2021"
publish = false

[dependencies]
serde = { version = "1", features = ["derive"] }
serde_json = "1"
tokio = { version = "1", features = ["full"] }
tempfile = "3"
thiserror = "2"
sha2 = "0.10"
lzma-rs = "0.3"
tar = "0.4"
zip = { version = "2", default-features = false, features = ["deflate"] }
ureq = "3"
