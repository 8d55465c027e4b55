[package]
name = "record_sql"
version = "0.1.0"
edition = "2021"
publish = false

[dependencies]
syn = { version = "2", features = ["full"] }
quote = "1"
proc-macro2 = "1"
sqlx = { version = "0.8", default-features = false, features = ["postgres"] }
