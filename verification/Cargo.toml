[package]
name = "kayak"
version = "0.1.0"
edition = "2021"
publish = false

[dependencies]
anyhow = "=1.0.104"
chrono = "=0.4.45"
clap = { version = "=4.6.7", features = ["derive"] }
colored = "=2.2.0"
crossterm = "=0.28.1"
csv = "=1.4.0"
mail-parser = "=0.9.4"
pep440 = "=0.2.0"
ratatui = "=0.29.0"
rust-ini = "=0.21.3"
serde = { version = "=1.0.229", features = ["derive"] }
termimad = "=0.35.5"
trove-classifiers = "=0.70.0"
ureq = { version = "=2.12.1", features = ["json"] }
url = "=2.5.8"
zip = { version = "=2.6.1", default-features = false, features = ["deflate"] }
