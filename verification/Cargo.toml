[package]
name = "meshtopo"
version = "0.1.0"
edition = "2021"
publish = false

[dependencies]
petgraph = "*"
geojson = "*"
serde = { version = "*", features = ["derive"] }
serde_json = "*"
tokio = { version = "*", features = ["rt", "rt-multi-thread", "time", "sync", "macros"] }
log = "*"
fern = "*"
humantime = "*"
