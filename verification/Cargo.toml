[package]
name = "sq-pkcs11"
version = "0.1.0"
edition = "2021"
publish = false

[dependencies]
anyhow = "1"
clap = { version = "4", features = ["derive", "env"] }
cryptoki = "=0.12.1"
hex = "=0.4.3"
humantime = "=2.4.0"
libloading = "0.8"
sequoia-openpgp = { version = "=2.0.0", default-features = false, features = ["crypto-openssl"] }
thiserror = "2"
