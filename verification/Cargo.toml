[package]
name = "zhitiku_desktop"
version = "0.1.0"
edition = "2021"
publish = false

[dependencies]
base64 = "0.22"
cfb = "0.10"
ed25519-dalek = "2"
ego-tree = "*"
quick-xml = "*"
rand_core = { version = "0.6", features = ["getrandom"] }
scraper = "*"
serde = { version = "1", features = ["derive"] }
serde_json = "1"
sha2 = "0.10"
uuid = { version = "1", features = ["v7"] }
zip = "*"
