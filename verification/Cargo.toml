[package]
name = "registration"
version = "0.1.0"
edition = "2021"
publish = false

[dependencies]
actix-web = { version = "*", default-features = false }
diesel = { version = "*", features = ["sqlite", "r2d2"] }
dotenv = "*"
libsqlite3-sys = { version = "*", features = ["bundled"] }
rand = "0.8"
reqwest = { version = "*", default-features = false }
rust-argon2 = "*"
serde = { version = "*", features = ["derive"] }
