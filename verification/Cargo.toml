[package]
name = "pastebin"
version = "0.1.0"
edition = "2021"
publish = false

[dependencies]
base64 = "=0.13.1"
data-encoding = "=2.11.1"
mime_guess = "=1.8.8"
tree_magic = "=0.2.3"
tera = "=1.20.1"
chrono = "=0.4.45"
mime = "=0.2.6"
iron = "=0.6.1"
clap = "=2.34.0"
simplelog = "=0.12.2"
log = "=0.4.34"
bson = { version = "2", features = ["chrono-0_4"] }
mongo_driver = "=0.16.3"
serde_json = "=1.0.154"
quick-error = "=1.2.3"
