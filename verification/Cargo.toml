[package]
name = "todo_store"
version = "0.1.0"
edition = "2021"
publish = false

[dependencies]
actix-web = "4"
actix-files = "0.6"

[dev-dependencies]
serde_json = "1"
