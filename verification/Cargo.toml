[package]
name = "quick_look"
version = "0.1.0"
edition = "2021"
publish = false

[dependencies]
async-std = "1"
base64 = "0.21"
bzip2 = "0.4"
calamine = "0.22"
chrono = "0.4"
crypto-hash = "0.3"
dirs = "5"
encoding_rs = "0.8"
flate2 = "1"
fs_extra = "1"
futures = "0.3"
log = "0.4"
mupdf = "*"
serde = { version = "1", features = ["derive"] }
serde_json = "1"
sevenz-rust = "0.5"
tar = "0.4"
thiserror = "1"
unrar = "0.4"
urlencoding = "2"
uuid = { version = "1", features = ["v4"] }
xz2 = "0.1"
zip = "0.6"
