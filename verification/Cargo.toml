[package]
name = "flams"
version = "0.1.0"
edition = "2021"
publish = false

[dependencies]
owo-colors = "=4.4.0"
url = "=2.5.8"
smallvec = "=2.0.0-beta.4"
serde = { version = "=1.0.229", features = ["derive"] }
serde_json = { version = "=1.0.154", features = ["unbounded_depth"] }
serde_stacker = "=0.1.14"
rayon = "=1.12.0"
parking_lot = "=0.12.5"
urlencoding = "=2.1.3"
