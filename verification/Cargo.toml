[package]
name = "birthday_bot"
version = "0.1.0"
edition = "2021"
rust-version = "1.95"
publish = false

[dependencies]
chrono = "=0.4.45"
dotenvy = "=0.15.7"
log = "=0.4.35"
pretty_env_logger = "=0.5.0"
rusqlite = { version = "=0.41.1", features = ["bundled", "chrono"] }
takecell = "=0.1.1"
teloxide = { version = "=0.17.0", default-features = false, features = ["macros", "ctrlc_handler", "rustls"] }
tokio = { version = "=1.54.1", features = ["macros", "rt-multi-thread", "time"] }
uuid = { version = "=1.29.0", features = ["v7"] }
