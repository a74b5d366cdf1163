[package]
name = "es3"
version = "0.1.0"
edition = "2021"
publish = false

[dependencies]
roxmltree = "*"
base64 = "*"
zip = { version = "*", default-features = false, features = ["deflate"] }
sha2 = "*"
x509-cert = { version = "*", features = ["pem"] }
bergshamra-core = "*"
bergshamra-dsig = "*"
bergshamra-keys = "*"
clap = { version = "*", features = ["derive"] }
serde = { version = "*", features = ["derive"] }
serde_json = "*"
