[package]
name = "mcserver_handler"
version = "0.1.0"
edition = "2021"
publish = false

[dependencies]
handlebars = "4"
openssl = "0.10"
rand = "0.8"
serde = { version = "1", features = ["derive"] }
serde_json = "1"
toml = "0.8"
