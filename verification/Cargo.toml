[package]
name = "thread_board"
version = "0.1.0"
edition = "2021"
publish = false

[dependencies]
chrono = "*"
actix-web = { version = "*", default-features = false, features = ["macros"] }
actix-files = "*"
askama = "*"
serde = { version = "*", features = ["derive"] }
sqlx = { version = "*", default-features = false, features = ["runtime-tokio", "postgres"] }
tokio = { version = "*", features = ["fs"] }
dotenv = "*"
env_logger = "*"
log = "*"
