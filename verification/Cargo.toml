[package]
name = "cityjson_stac"
version = "0.1.0"
edition = "2021"
publish = false

[dependencies]
chrono = "*"
serde = { version = "*", features = ["derive"] }
serde_json = "*"
serde_yaml = "*"
clap = { version = "*", features = ["derive"] }
walkdir = "*"
tempfile = "*"
zip = { version = "*", default-features = false, features = ["deflate"] }
log = "*"
env_logger = { version = "*", default-features = false }
console = "*"
url = "*"
bytes = "*"
reqwest = { version = "*", default-features = false, features = ["rustls-tls"] }
object_store = { version = "*", features = ["aws", "gcp", "azure", "http"] }
tokio = { version = "*", features = ["rt-multi-thread", "macros"] }
stac = "*"
arrow = { version = "*", default-features = false }
parquet = { version = "*", default-features = false, features = ["arrow", "snap"] }
geojson = "*"
geozero = { version = "*", features = ["with-wkb", "with-geojson"] }
