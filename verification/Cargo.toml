[package]
name = "sitegen"
version = "0.1.0"
edition = "2021"
publish = false

[dependencies]
serde_yaml = "0.9"
tera = "1"
pandoc = "*"
globwalk = "0.9"
notify = "*"
warp = "0.3"
tokio = { version = "1", features = ["rt-multi-thread", "fs"] }
mime_guess = "2"
anyhow = "1"

[dev-dependencies]
