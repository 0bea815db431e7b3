[package]
name = "rocket_blog"
version = "0.1.0"
edition = "2021"
publish = false

[dependencies]
chrono = "0.4"
rocket = "0.5"
postgres = { version = "0.19", features = ["with-chrono-0_4"] }
r2d2 = "0.8"
r2d2_postgres = "0.18"
regex = "1"
time = "0.3"
lazy_static = "1"
dotenv = "0.15"
log = "0.4"
env_logger = "0.11"
