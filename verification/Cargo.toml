[package]
name = "course_dl"
version = "0.1.0"
edition = "2021"
publish = false

[dependencies]
url = "=2.5.8"
reqwest = { version = "=0.13.5", default-features = false, features = ["cookies", "form"] }
tokio = { version = "=1.53.2", features = ["rt-multi-thread", "macros", "fs", "sync", "io-util"] }
dialoguer = "=0.12.0"
indicatif = "=0.18.6"
eyre = "=0.6.14"
rand = "=0.10.3"
cookie = "=0.18.2"
cookie_store = "=0.22.1"
