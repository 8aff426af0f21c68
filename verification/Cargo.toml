[package]
name = "hurl"
version = "0.1.0"
edition = "2021"
publish = false

[dependencies]
serde_json = "=1.0.154"
reqwest = { version = "=0.9.24", default-features = false }
structopt = "=0.3.26"
log = "=0.4.34"
pretty_env_logger = "=0.3.1"
heck = "=0.3.3"
syntect = { version = "=4.6.0", default-features = false, features = ["default-fancy"] }
toml = "0.5"
rpassword = "5"
