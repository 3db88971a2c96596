[package]
name = "drop_it"
version = "0.1.0"
edition = "2021"
publish = false

[dependencies]
actix = "=0.13.5"
actix-web = { version = "=4.18.1", default-features = false, features = ["macros", "ws"] }
actix-web-actors = "=4.3.1"
futures = "=0.3.34"
log = "=0.4.34"
log4rs = "=1.4.0"
windows-service = "=0.8.1"

[dev-dependencies]
nom = "=7.1.3"
