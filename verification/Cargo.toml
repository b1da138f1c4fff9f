[package]
name = "piqo"
version = "0.1.0"
edition = "2021"
publish = false

[dependencies]
rand = "=0.9.5"
chrono = "=0.4.45"
clap = { version = "=4.6.7", features = ["cargo"] }
inquire = { version = "=0.9.4", features = ["date", "editor"] }
owo-colors = "=4.4.0"
serde = { version = "=1.0.229", features = ["derive"] }
serde_json = "=1.0.151"
gix-discover = "=0.56.0"
gix-hash = { version = "=0.27.0", features = ["sha1"] }
