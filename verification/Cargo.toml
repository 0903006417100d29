[package]
name = "tide_static_files"
version = "0.1.0"
edition = "2021"
publish = false

[dependencies]
async-std = "=1.13.2"
bytes = "=1.12.1"
futures = { version = "=0.3.34", features = ["thread-pool"] }
http = "=0.1.21"
http-service = "=0.4.0"
log = "=0.4.34"
mime = "=0.3.17"
mime_guess = "=2.0.5"
num-traits = "=0.2.19"
regex = "=1.13.1"
tide = "=0.16.0"
