[package]
name = "jarsigner"
version = "0.1.0"
edition = "2021"
publish = false

[dependencies]
anyhow = "=1.0.104"
base64 = "=0.22.1"
rand = "=0.8.8"
rsa = { version = "=0.9.10", features = ["sha2"] }
sha2 = "=0.10.9"
spki = "=0.7.3"
zip = { version = "=2.6.1", default-features = false, features = ["deflate", "deflate64", "lzma", "time"] }
clap = { version = "=4.6.7", features = ["derive"] }
colored = "=2.2.0"
dirs = "=5.0.1"
hex = "=0.4.3"
indicatif = "=0.17.11"
keyring = "=3.6.3"
