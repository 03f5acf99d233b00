[package]
name = "git_verify"
version = "0.1.0"
edition = "2021"
publish = false

[dependencies]
git-features = { version = "=0.26.5", features = ["rustsha1"] }
git-object = "=0.26.2"
git-odb = "=0.41.0"
git-repository = "=0.30.2"
anyhow = "=1.0.104"
tempfile = "=3.27.0"
serde = { version = "=1.0.229", features = ["derive"] }
