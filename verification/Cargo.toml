[package]
name = "pixma"
version = "0.1.0"
edition = "2021"
publish = false

[dependencies]
quick-xml = "=0.37.5"
tokio = { version = "=1.54.1", features = ["full"] }
axum = "=0.8.9"
clap = { version = "=4.6.7", features = ["derive"] }
mdns-sd = "=0.21.7"
ipp = { version = "=8.0.0", default-features = false, features = ["client"] }
uuid = { version = "=1.29.0", features = ["v4"] }
thiserror = "=2.0.21"
anyhow = "=1.0.104"
image = { version = "=0.25.10", default-features = false, features = ["jpeg", "png"] }
