[package]
name = "pixi_pack"
version = "0.1.0"
edition = "2021"
publish = false

[dependencies]
rattler_conda_types = "=0.56.1"
rattler_package_streaming = { version = "*", default-features = false }
rattler_lock = "=0.34.3"
reqwest = { version = "*", default-features = false, features = ["rustls-tls", "blocking"] }

[dev-dependencies]
tar = "*"
base64 = "*"
serde_json = "*"
