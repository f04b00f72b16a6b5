[package]
name = "probe-shell"
version = "0.5.2"
edition = "2021"
publish = false

[dependencies]
anyhow = "1"
async-trait = "0.1"
base64 = "0.22"
chrono = "0.4"
futures = "0.3"
portable-pty = "0.8"
russh = "0.49"
russh-sftp = "2"
serde_json = "1"
ssh-key = "0.6"
tar = "0.4"
tokio = { version = "1", features = ["fs", "io-util", "macros", "net", "rt", "rt-multi-thread", "sync", "time"] }
tracing = "0.1"
ureq = "2"
uuid = { version = "1", features = ["v4"] }
