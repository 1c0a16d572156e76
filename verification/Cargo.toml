[package]
name = "tcp_scanner"
version = "0.1.0"
edition = "2021"
publish = false

[dependencies]
x509-parser = "*"
time = { version = "*", features = ["formatting", "parsing"] }
tokio = { version = "*", features = ["full"] }
futures = "*"
clap = { version = "*", features = ["derive"] }
tokio-native-tls = "*"
trust-dns-client = "*"
