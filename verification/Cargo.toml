[package]
name = "yaib"
version = "0.1.0"
edition = "2021"
publish = false

[dependencies]
anyhow = "=1.0.104"
chrono = "=0.4.45"
dirs = "=7.0.0"
fancy-duration = { version = "=0.9.2", features = ["chrono", "serde"] }
mpris = "*"
mprober-lib = "=0.2.1"
num_cpus = "=1.17.0"
serde = "=1.0.229"
serde_derive = "=1.0.229"
serde_json = "=1.0.151"
serde_yaml = "=0.9.34"
tokio = { version = "=1.53.2", features = ["full"] }

[dev-dependencies]
pretty-bytes = "=0.2.2"
