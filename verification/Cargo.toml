[package]
name = "get_clipboard"
version = "0.1.0"
edition = "2021"
publish = false

[dependencies]
anyhow = "1"
axum = "0.7"
base64 = "0.22"
clap = { version = "4", features = ["derive"] }
clipboard-rs = "*"
color-eyre = "*"
crossterm = "*"
directories = "*"
hex = "0.4"
html-escape = "*"
image = { version = "0.25", default-features = false, features = ["png", "jpeg", "gif", "tiff"] }
include_dir = "*"
mime_guess = "2"
once_cell = "1"
parking_lot = "*"
ratatui = "*"
regex = "1"
serde = { version = "1", features = ["derive"] }
serde_json = "1"
sha2 = "0.10"
tempfile = "3"
time = { version = "0.3", features = ["formatting", "parsing", "macros", "serde"] }
tokio = { version = "1", features = ["rt-multi-thread", "net", "macros"] }
url = "2"
viuer = { version = "*", default-features = false }
