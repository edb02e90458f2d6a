[package]
name = "trip_page"
version = "0.1.0"
edition = "2021"
publish = false

[dependencies]
dirs = "*"
fastcgi = "*"
mysql = "*"
querystring = "*"
serde = { version = "*", features = ["derive"] }
tera = "*"
toml = "*"
