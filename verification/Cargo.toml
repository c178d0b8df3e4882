[package]
name = "rust_task_db"
version = "0.1.0"
edition = "2021"
publish = false

[dependencies]
gluesql = { version = "=0.19.0", default-features = false, features = ["gluesql_memory_storage", "gluesql_sled_storage"] }
futures = "=0.3.34"
serde = { version = "=1.0.229", features = ["derive"] }
serde_json = "=1.0.154"
async-trait = "=0.1.92"
