[package]
name = "manga_sync"
version = "0.1.0"
edition = "2021"
publish = false

[dependencies]
scraper = { version = "=0.18.1", features = ["deterministic"] }
serde = { version = "=1.0.229", features = ["derive"] }
serde_json = "=1.0.154"
reqwest = { version = "=0.11.27", default-features = false, features = ["blocking"] }
tokio = { version = "=1.54.1", features = ["macros", "rt-multi-thread", "time"] }
warp = { version = "=0.3.7", default-features = false }
zip = { version = "=0.6.6", default-features = false }
