[package]
name = "share_card"
version = "0.1.0"
edition = "2021"
publish = false

[dependencies]
anyhow = "1"
font-kit = "*"
image = { version = "*", default-features = false, features = ["jpeg", "png"] }
jpeg-encoder = "*"
raqote = "*"
rayon = "1"
reqwest = { version = "*", default-features = false, features = ["json"] }
serde = { version = "1", features = ["derive"] }
tokio = { version = "1", features = ["fs", "macros", "rt-multi-thread"] }

[dev-dependencies]
jpeg-decoder = "*"
