[package]
name = "deduper"
version = "0.3.0"
edition = "2021"
publish = false

[dependencies]
md-5 = "0.10"
sha2 = "0.10"
digest = "0.10"
url = "2"
mime_guess = "2"
chrono = "0.4"
serde = { version = "1", features = ["derive"] }
serde_json = "1"
uuid = { version = "1", features = ["v4"] }
walkdir = "2"
rusqlite = { version = "0.31", features = ["bundled"] }
reqwest = { version = "0.12", default-features = false, features = ["blocking", "json", "rustls-tls"] }
rayon = "1"
tiny_http = "0.12"
oauth2 = { version = "4", default-features = false }
open = "5"
thiserror = "1"
