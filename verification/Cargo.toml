[package]
name = "loco-openapi"
version = "0.1.0"
edition = "2021"
publish = false

[dependencies]
serde_json = "=1.0.154"
serde = { version = "=1.0.229", features = ["derive"] }
async-trait = "=0.1.92"
axum = "=0.8.9"
loco-rs = { version = "=0.16.4", default-features = false }
utoipa = { version = "=5.5.0", features = ["yaml", "preserve_path_order"] }
utoipa-axum = "=0.2.0"
utoipa-redoc = { version = "=6.0.0", features = ["axum"] }
utoipa-scalar = { version = "=0.3.0", features = ["axum"] }
utoipa-swagger-ui = { version = "=9.0.2", features = ["axum", "vendored"] }
