[package]
name = "ewe"
version = "0.1.0"
edition = "2021"
publish = false

[dependencies]
anyhow = "1"
ar = "0.9"
bzip2 = "0.4"
clap = { version = "4", features = ["derive"] }
console = "0.15"
flate2 = "1"
futures = "0.3"
hex = "0.4"
indicatif = "0.17"
libc = "0.2"
mlua = { version = "0.8", features = ["lua54", "vendored"] }
once_cell = "1"
openssl = "0.10"
reqwest = { version = "0.11", features = ["stream"] }
rhai = { version = "1", features = ["serde"] }
serde = { version = "1", features = ["derive"] }
serde_json = "1"
tar = "0.4"
tempfile = "3"
thiserror = "1"
tokio = { version = "1", features = ["rt", "fs", "io-util"] }
url = { version = "2", features = ["serde"] }
xz2 = "0.1"
zip = "0.6"
zstd = "0.13"
