[package]
name = "chat_label_printer"
version = "0.1.0"
edition = "2021"
publish = false

[dependencies]
ab_glyph = "=0.2.32"
attohttpc = { version = "=0.28.5", default-features = false, features = ["tls-rustls-native-roots"] }
bytes = "=1.12.1"
color-eyre = "=0.6.5"
env_logger = "=0.11.11"
humantime = "=2.4.0"
image-webp = "=0.2.4"
log = "=0.4.34"
minifb = "=0.27.0"
rusb = "=0.9.4"
rustls = { version = "=0.23.46", default-features = false, features = ["ring", "std", "tls12"] }
rustls-native-certs = "=0.7.3"
rustrict = "=0.7.39"
serialport = { version = "=4.10.1", default-features = false }
tar-wasi = { version = "=0.4.38", default-features = false }
tinyjson = "=2.5.1"
