[package]
name = "colledor"
version = "0.1.0"
edition = "2021"
publish = false

[dependencies]
chrono = "0.4"
md5 = "0.7"
rand = "0.8"
jsonwebtoken = "7"
serde = { version = "1", features = ["derive"] }
postgres = "0.19"
actix-web = { version = "3", default-features = false, features = ["openssl"] }
actix-cors = "0.5"
openssl = "0.10"
