[package]
name = "movie_store"
version = "0.1.0"
edition = "2021"
publish = false

[dependencies]
axum = "0.7"
tokio = { version = "1", features = ["macros", "net", "rt-multi-thread"] }
