[package]
name = "achvgames-com"
version = "0.1.0"
edition = "2021"
publish = false

[dependencies]
base64 = "=0.21.7"
itertools = "=0.11.0"
sqlx = { version = "=0.7.4", default-features = false, features = ["postgres", "runtime-async-std"] }
serde = { version = "=1.0.229", features = ["derive"] }
futures = "=0.3.34"
async-std = { version = "=1.13.2", features = ["attributes"] }
lazy_static = "=1.5.1"
surf = { version = "=2.3.2", default-features = false, features = ["h1-client-rustls"] }
async-graphql = { version = "=6.0.11", default-features = false, features = ["playground"] }
async-graphql-tide = "=6.0.11"
tide = { version = "=0.16.0", default-features = false, features = ["h1-server"] }
