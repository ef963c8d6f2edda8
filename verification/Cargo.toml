[package]
name = "chasqui"
version = "0.1.0"
edition = "2021"
publish = false

[dependencies]
anyhow = "1"
async-trait = "0.1"
axum = "0.8"
chrono = { version = "0.4", default-features = false, features = ["std"] }
derive_more = { version = "*", features = ["display"] }
dotenv = "0.15"
gray_matter = "*"
notify = "*"
pulldown-cmark = { version = "*", default-features = false, features = ["html"] }
reqwest = { version = "0.12", default-features = false }
serde = { version = "1", features = ["derive"] }
serde_json = "1"
sqlx = { version = "0.8", default-features = false, features = ["runtime-tokio", "sqlite", "chrono", "derive", "migrate"] }
tokio = { version = "1", features = ["rt-multi-thread", "macros", "sync", "time", "net"] }
walkdir = "2"
xxhash-rust = { version = "0.8", features = ["xxh3"] }
