[package]
name = "memory_stream"
version = "0.1.0"
edition = "2021"
publish = false

[dependencies]
regex = "=1.13.1"
pulldown-cmark = { version = "=0.12.2", default-features = false }
gray_matter = "=0.3.2"
sha2 = "=0.10.9"
encoding_rs = "=0.8.44"
zip = { version = "=2.6.1", default-features = false, features = ["deflate"] }
serde_json = "1"
