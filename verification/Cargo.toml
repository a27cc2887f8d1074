[package]
name = "kafky"
version = "0.1.0"
edition = "2021"
publish = false

[dependencies]
base64 = "0.13"
byteorder = "1"
chrono = "0.4"
clap = "2.33"
config = "0.11"
env_logger = "0.9"
gethostname = "0.2"
home = "0.5"
log = "0.4"
rdkafka = "0.28"
rustyline = "9"
serde = { version = "1", features = ["derive"] }
serde_json = "1"
serde_yaml = "0.8"
tabwriter = "1"
tempfile = "3"
thiserror = "1"
tokio = { version = "1", features = ["full"] }
which = "4"
