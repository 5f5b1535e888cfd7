[package]
name = "parallax"
version = "0.1.0"
edition = "2021"
publish = false

[dependencies]
hmac = "=0.12.1"
hkdf = "=0.12.4"
pbkdf2 = "=0.12.2"
sha2 = "=0.10.9"
rand = "=0.8.8"
ctrlc = "=3.5.2"
libc = "=0.2.191"
x11 = { version = "=2.21.0", features = ["xlib", "xrender", "xfixes"] }
ffmpeg-next = "=8.1.0"
qrcode = { version = "0.14", default-features = false }
