[package]
name = "fpm"
version = "0.1.0"
edition = "2021"
publish = false

[dependencies]
actix-files = "=0.7.2"
actix-web = { version = "=4.18.1", default-features = false, features = ["macros"] }
async-lock = "=3.4.2"
camino = "=1.2.6"
clap = "=4.6.7"
colored = "=2.2.0"
diffy = "=0.5.2"
ftd = "=0.2.0"
futures = "=0.3.34"
indoc = "=2.0.8"
itertools = "=0.15.0"
lazy_static = "=1.5.1"
mime_guess = "=2.0.5"
once_cell = "=1.21.4"
realm-lang = "=0.1.0"
serde = { version = "=1.0.229", features = ["derive"] }
serde_json = "=1.0.154"
tokio = { version = "=1.54.1", features = ["full"] }
url = "=2.5.8"
