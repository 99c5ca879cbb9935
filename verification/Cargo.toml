[package]
name = "yamcl"
version = "0.1.0"
edition = "2021"
publish = false

[dependencies]
sha1_smol = "=1.0.1"
chrono = "=0.4.45"
serde = { version = "=1.0.229", features = ["derive"] }
serde_json = "=1.0.151"
serde_ini = "=0.2.0"
reqwest = { version = "=0.13.5", features = ["blocking", "json", "form"] }
fastrand = "=2.5.0"
jars = "=0.1.1"
uuid = { version = "=1.27.0", features = ["v4"] }
