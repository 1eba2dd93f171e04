[package]
name = "pahkat_reposrv"
version = "0.1.0"
edition = "2021"
publish = false

[dependencies]
anyhow = "=1.0.104"
arc-ext = "=0.1.0"
arc-swap = "=1.9.3"
async-graphql = "=4.0.16"
async-graphql-poem = "=4.0.16"
chrono = "=0.4.45"
dunce = "=1.0.5"
figment = { version = "=0.10.19", features = ["toml", "env"] }
once_cell = "=1.21.4"
parking_lot = "=0.12.5"
poem = "=1.3.59"
poem-openapi = { version = "=1.3.24", features = ["rapidoc", "chrono"] }
serde = { version = "=1.0.229", features = ["derive"] }
structopt = "=0.3.26"
tempfile = "=3.27.0"
thiserror = "=1.0.69"
tokio = { version = "=1.54.1", features = ["rt-multi-thread", "macros", "time"] }
toml = "=0.5.11"
tracing = "=0.1.44"
tracing-subscriber = "=0.3.23"
url = "=2.5.8"
uuid = { version = "=1.29.0", features = ["v4"] }
