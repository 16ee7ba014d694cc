[package]
name = "mashinka"
version = "0.1.0"
edition = "2021"
publish = false

[dependencies]
chrono = "0.4"
colored = "2"
dotenv = "0.15"
flate2 = "1"
slug = "0.1"
tar = "0.4"
thiserror = "1"
ureq = "2"

[dev-dependencies]
regex = "1"
