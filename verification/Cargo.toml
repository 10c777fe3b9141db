[package]
name = "semantic_image_browser"
version = "0.1.0"
edition = "2021"
publish = false

[dependencies]
sha2 = "0.10"
hex = "0.4"
fast_image_resize = "5"
png = "*"
image = { version = "0.25", default-features = false, features = ["png", "jpeg", "gif", "webp", "bmp", "tiff"] }
turbojpeg = "1"
serde = { version = "1", features = ["derive"] }
serde_json = "1"
walkdir = "2"
zip = { version = "*", default-features = false, features = ["deflate"] }
tar = "0.4"
flate2 = "1"
webp = "0.3"
hdbscan = "*"
bhtsne = "*"
rayon = "1"
rand = "0.9"
libc = "0.2"
reqwest = { version = "0.12", default-features = false, features = ["stream", "rustls-tls"] }
futures = "0.3"
futures-util = "0.3"
tokio = { version = "1", features = ["rt", "sync"] }
