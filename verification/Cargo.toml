[package]
name = "urlenc"
version = "0.1.0"
edition = "2021"
publish = false

[dependencies]
form_urlencoded = "1"
itoa = "1"
ryu = "1"
serde = "1"
