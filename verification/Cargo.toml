[package]
name = "topo_synth"
version = "0.1.0"
edition = "2021"
publish = false

[dependencies]
ipnet = "=2.12.2"
convert_case = "=0.12.0"
mikrotik_api = "=0.3.0"
tokio = { version = "=1.54.1", features = ["sync", "time", "rt-multi-thread", "macros"] }
serde = { version = "=1.0.229", features = ["derive"] }
serde_json = "=1.0.154"
reqwest = { version = "=0.13.5", default-features = false, features = ["json"] }
log = "=0.4.34"
thiserror = "=2.0.21"
config = "*"
lazy_static = "1"
env_logger = "*"
