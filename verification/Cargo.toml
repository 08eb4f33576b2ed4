[package]
name = "bignetscreen"
version = "0.1.0"
edition = "2021"
publish = false

[dependencies]
aes = "0.8"
ctr = "0.9"
serde_json = "1"
prost = "0.13"
rustls = { version = "0.23", default-features = false, features = ["std", "ring", "tls12"] }
rustls-webpki = { version = "0.103", default-features = false, features = ["std", "ring"] }
tokio = { version = "1", features = ["rt-multi-thread", "macros", "net", "io-util", "time", "sync", "fs"] }
tokio-rustls = { version = "0.26", default-features = false, features = ["ring", "tls12"] }
futures = "0.3"
async-trait = "0.1"
tracing = "0.1"
thiserror = "2"
mdns-sd = "*"
zbus = { version = "5", default-features = false, features = ["tokio"] }
ashpd = { version = "*", default-features = false, features = ["tokio", "screencast"] }
enumflags2 = "0.7"
