[package]
name = "chaos_core"
version = "0.1.0"
edition = "2021"
publish = false

[dependencies]
md5 = "0.7"
base64 = "0.22"
url = "2"
flate2 = "1"
urlencoding = "2"
reqwest = { version = "0.12", default-features = false, features = ["json", "cookies", "stream"] }
tokio = { version = "1", features = ["rt-multi-thread", "macros", "fs", "time", "io-util"] }
serde = { version = "1", features = ["derive"] }
serde_json = "1"
regex = "1"
strsim = "0.11"
futures-util = "0.3"
fastrand = "2"
thiserror = "2"
hound = "3"
bytes = "1"
rand = "0.8"
rand_chacha = "0.3"
