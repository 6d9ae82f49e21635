[package]
name = "nostr-scrolls"
version = "0.1.0"
edition = "2021"
publish = false

[dependencies]
heapless = "0.8"
spin = "0.9"
proc-macro2 = "1"
quote = "1"
syn = { version = "2", features = ["full"] }
