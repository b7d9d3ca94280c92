[package]
name = "cliud"
version = "0.1.0"
edition = "2021"
publish = false

[dependencies]
base64 = "0.22"
sha1_smol = "1"
percent-encoding = "2"
flate2 = "1"
tokio = { version = "1", features = ["rt-multi-thread", "macros", "net", "io-util", "time", "sync"] }
async-trait = "0.1"
colored = "2"
thiserror = "1"
