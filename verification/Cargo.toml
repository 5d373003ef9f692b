[package]
name = "fuel_station"
version = "0.1.0"
edition = "2021"
publish = false

[dependencies]
actix-files = "0.6"
actix-web = "4"
chrono = "0.4"
futures-util = "0.3"
http = "0.2"
jsonwebtoken = "9"
once_cell = "1"
ramhorns = "*"
serde = { version = "1", features = ["derive"] }
serde_json = { version = "1", features = ["preserve_order"] }
sqlx = { version = "0.7", features = ["runtime-tokio", "mysql", "sqlite"] }
thiserror = "1"
tokio = { version = "1", features = ["full"] }
utoipa = "4"
utoipa-swagger-ui = { version = "6", features = ["actix-web"] }
