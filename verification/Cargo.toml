[package]
name = "mastodon_bluesky_sync"
version = "0.1.0"
edition = "2021"
publish = false

[dependencies]
anyhow = "1"
bsky-sdk = "*"
html-escape = "0.2"
megalodon = "*"
regex = "1"
serde_json = "1"
unicode-segmentation = "1"
voca_rs = "1"
