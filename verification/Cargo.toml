[package]
name = "mineradio"
version = "0.1.0"
edition = "2021"
publish = false

[dependencies]
aes = "0.8"
cbc = { version = "0.1", features = ["alloc"] }
ecb = { version = "0.1", features = ["alloc"] }
base64 = "0.22"
hex = "0.4"
md5 = "0.7"
num-bigint = "0.4"
num-traits = "0.2"
rand = "0.8"
qrcode = { version = "0.14", default-features = false, features = ["svg"] }
serde = { version = "1", features = ["derive"] }
serde_json = "1"
lazy_static = "1"
walkdir = "2"
sysinfo = "0.33"
tokio = { version = "1", features = ["sync", "time", "rt"] }
reqwest = { version = "0.12", default-features = false, features = ["json", "gzip"] }
