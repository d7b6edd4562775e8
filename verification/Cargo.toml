[package]
name = "bene_epub"
version = "0.1.0"
edition = "2021"
publish = false

[dependencies]
anyhow = "1"
clap = { version = "4", features = ["derive"] }
iref = { version = "3", features = ["serde"] }
log = "0.4"
mediatype = { version = "*", features = ["serde"] }
mime_guess = "2"
quick-xml = { version = "0.37", features = ["serialize"] }
serde = { version = "1", features = ["derive"] }
serde_json = "1"
smallvec = { version = "1", features = ["serde"] }
zip = { version = "2", default-features = false, features = ["deflate"] }
