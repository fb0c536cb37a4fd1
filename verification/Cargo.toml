[package]
name = "ome_ngff"
version = "0.1.0"
edition = "2021"
publish = false

[dependencies]
arrayvec = "0.7"
serde = { version = "1", features = ["derive"] }
serde-enum-str = "*"
serde_json = "1"
thiserror = "1"
