[package]
name = "stateql"
version = "0.1.0"
edition = "2021"
publish = false

[dependencies]
serde = { version = "1", features = ["derive"] }
serde_yaml = "*"
sqlparser = "*"
pg_query = "*"
postgres = "*"
mysql = "*"
rusqlite = { version = "*", features = ["bundled"] }
