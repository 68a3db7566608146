[package]
name = "waker"
version = "0.1.0"
edition = "2021"
publish = false

[dependencies]
anyhow = "=1.0.104"
handy-rs = { version = "=2.2.0", features = ["pattern"] }
thiserror = "=2.0.21"
serde = { version = "=1.0.229", features = ["derive"] }
clap = { version = "=4.6.7", features = ["derive"] }
colored = "=3.1.1"
configura = "=1.1.0"
inquire = "=0.9.4"
axum = "=0.8.9"
tokio = { version = "=1.54.1", features = ["macros", "rt-multi-thread", "net"] }
chrono = "=0.4.45"
log = "=0.4.34"
simplelog = "=0.12.2"
rayon = "=1.12.0"
num_cpus = "=1.17.0"
dotenvy = "=0.15.7"
utoipa = "=6.0.0"
utoipa-swagger-ui = { version = "=10.0.2", features = ["axum", "vendored"] }
