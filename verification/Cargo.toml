[package]
name = "zspell"
version = "0.1.0"
edition = "2021"
publish = false

[dependencies]
unicode-segmentation = "1"
regex = "1"
hashbrown = "*"
sha1 = "0.10"
hex = "0.4"
clap = { version = "4", features = ["derive"] }
anyhow = "1"
thiserror = "*"
serde_json = "1"
futures-util = "0.3"
indicatif = "0.17"
reqwest = { version = "*", default-features = false, features = ["stream"] }
