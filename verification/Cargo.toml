[package]
name = "cc_annotator"
version = "0.1.0"
edition = "2021"
publish = false

[dependencies]
arrow = "=60.0.0"
clap = { version = "=4.6.7", features = ["derive"] }
flate2 = "=1.1.10"
httparse = "=1.10.1"
nanohtml2text = "=0.3.0"
parquet = { version = "=60.0.0", features = ["arrow", "zstd"] }
serde = { version = "=1.0.229", features = ["derive"] }
serde_json = "=1.0.151"
tokio = { version = "=1.53.2", features = ["rt-multi-thread", "macros", "sync"] }
walkdir = "=2.5.0"
warc = "=0.4.0"

[dev-dependencies]
bytes = "*"
