[package]
name = "cliper"
version = "0.1.0"
edition = "2021"
publish = false

[dependencies]
zip = { version = "0.6", default-features = false, features = ["deflate"] }
md5 = "0.7"
regex = "1"
xml-rs = "0.8"
base64 = "0.21"
structopt = "0.3"
csv = "1"
prettytable-rs = "0.10"
