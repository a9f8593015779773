[package]
name = "reservation_server"
version = "0.1.0"
edition = "2021"
publish = false

[dependencies]
ipnet = "2"
rand = "0.9"
rocket = { version = "0.5", features = ["json", "secrets"] }
rocket_db_pools = { version = "0.2", features = ["sqlx_sqlite"] }
rocket_dyn_templates = { version = "0.2", features = ["handlebars"] }
serde = { version = "1", features = ["derive"] }
