[package]
name = "gemclient"
version = "0.1.0"
edition = "2021"
publish = false

[dependencies]
url = "2"
mime = "0.3"
rustls = { version = "0.23", default-features = false, features = ["ring", "std", "tls12"] }
webpki-roots = "0.26"
