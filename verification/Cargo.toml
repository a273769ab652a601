[package]
name = "board_api"
version = "0.1.0"
edition = "2021"
publish = false

[dependencies]
bcrypt = "0.15"
uuid = { version = "1", features = ["v4"] }
serde = { version = "1", features = ["derive"] }
serde_json = "1"
warp = { version = "0.3", default-features = false }
tokio = { version = "1", features = ["rt-multi-thread", "macros", "time"] }
sqlx = { version = "0.7", default-features = false, features = ["mysql", "runtime-tokio", "macros"] }
parking_lot = "0.12"
lazy_static = "1"
