[package]
name = "gitui"
version = "0.1.0"
edition = "2021"
publish = false

[dependencies]
anyhow = "=1.0.104"
bytesize = { version = "=2.7.0", default-features = false }
crossterm = "=0.29.0"
dirs = "=6.0.0"
easy-cast = "=0.5.2"
git2 = { version = "=0.21.0", default-features = false }
log = "=0.4.35"
ratatui = { version = "=0.30.2", default-features = false, features = ["crossterm"] }
unicode-segmentation = "=1.13.3"
unicode-truncate = { version = "=2.0.1", default-features = false }
unicode-width = "=0.2.3"

[dev-dependencies]
tempfile = "=3.27.0"
