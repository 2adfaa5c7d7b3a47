[package]
name = "chronikl"
version = "0.1.0"
edition = "2021"
publish = false

[dependencies]
semver = "=1.0.28"
sha2 = "=0.10.9"
hex = "=0.4.3"
uuid = { version = "=1.29.0", features = ["v4"] }
serde = { version = "=1.0.229", features = ["derive"] }
serde_json = "=1.0.154"
toml = "=0.9.8"
clap = { version = "=4.6.7", features = ["derive", "env"] }
colored = "=3.1.1"
tokio = { version = "=1.54.1", features = ["full"] }
dirs = "=6.0.0"
flate2 = "=1.1.10"
tar = "=0.4.46"
anyhow = "=1.0.104"
futures = "=0.3.34"
async-trait = "=0.1.92"
regex = "=1.13.1"
globset = "=0.4.21"
schemars = "=1.2.3"

[dev-dependencies]
tempfile = "=3.27.0"
