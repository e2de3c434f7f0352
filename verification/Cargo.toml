[package]
name = "carlink"
version = "0.1.0"
edition = "2021"
publish = false

[dependencies]
jsonwebtoken = "9"
serde = { version = "1", features = ["derive"] }
serde_json = "1"
rand = "0.8"
bcrypt = "0.15"
uuid = { version = "1", features = ["v4"] }
email_address = "0.2"
chrono = "0.4"
actix-web = { version = "4", default-features = false, features = ["macros"] }
sqlx = { version = "0.8", default-features = false, features = ["runtime-tokio", "sqlite", "postgres", "chrono", "migrate"] }
tokio = { version = "1", features = ["rt-multi-thread", "macros", "net", "time", "sync"] }
lettre = { version = "0.11", default-features = false, features = ["smtp-transport", "builder"] }
dotenvy = "0.15"
async-trait = "0.1"
reqwest = { version = "0.12", default-features = false, features = ["json"] }
