[package]
name = "vmbuild"
version = "0.1.0"
edition = "2021"
publish = false

[dependencies]
arcbox-ext4 = "0.1"
clap = { version = "4", features = ["derive"] }
flate2 = "1"
fs2 = "0.4"
libc = "0.2"
serde = { version = "1", features = ["derive"] }
serde_json = "1"
sha2 = "0.10"
tar = "0.4"
tempfile = "3"
thiserror = "2"
uuid = { version = "1", features = ["v4"] }
