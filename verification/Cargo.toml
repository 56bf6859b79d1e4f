[package]
name = "mass_store"
version = "0.1.0"
edition = "2021"
publish = false

[dependencies]
axum = "0.8"
bigdecimal = "0.4"
chrono = { version = "0.4", features = ["serde"] }
futures = "0.3"
serde = { version = "1", features = ["derive"] }
sqlx = { version = "0.8", default-features = false, features = ["postgres", "runtime-tokio", "bigdecimal", "time"] }
time = "0.3"
tokio = { version = "1", features = ["macros", "rt-multi-thread", "net"] }
