[package]
name = "pobbin"
version = "0.1.0"
edition = "2021"
publish = false

[dependencies]
sha1 = "*"
miniz_oxide = "*"
serde = { version = "*", features = ["derive"] }
serde_json = "*"
log = "*"
fern = "*"
