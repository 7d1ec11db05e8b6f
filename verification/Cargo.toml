[package]
name = "url_bot_rs"
version = "0.4.3"
edition = "2021"
publish = false

[dependencies]
atty = "0.2"
chrono = "0.4"
directories = "*"
humansize = "1.1"
image = { version = "*", default-features = false, features = ["bmp", "gif", "jpeg", "png", "pnm", "tiff"] }
irc = "0.13"
log = "0.4"
mime = "0.3"
regex = "1"
reqwest = { version = "0.12", features = ["blocking", "cookies", "json"] }
rusqlite = "*"
scraper = "*"
serde = { version = "1", features = ["derive"] }
serde_json = "1"
stderrlog = "*"
structopt = "0.3"
toml = "0.8"
unicode-segmentation = "1"
