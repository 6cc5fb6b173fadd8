[package]
name = "slicer_rs"
version = "0.1.0"
edition = "2021"
publish = false

[dependencies]
anyhow = "1"
axum = "0.8"
base64 = "0.22"
bytes = "1"
dotenvy = "0.15"
envmode = "*"
envy = "0.4"
fern = { version = "0.7", features = ["colored"] }
futures-util = "0.3"
governor = "*"
humantime = "2"
log = "0.4"
nalgebra = "*"
once_cell = "1"
rayon = "1"
regex = "1"
reqwest = { version = "0.12", default-features = false, features = ["json", "stream", "rustls-tls"] }
serde = { version = "1", features = ["derive"] }
serde_json = "1"
stl_io = "*"
thiserror = "2"
tokio = { version = "1", features = ["full"] }
tonic = { version = "0.14", features = ["tls-ring", "tls-webpki-roots"] }
tower = { version = "0.5", features = ["util"] }
tower_governor = "*"
tower-http = { version = "0.6", features = ["cors", "timeout", "trace"] }
utoipa = "5"
utoipa-swagger-ui = { version = "9", features = ["axum", "vendored"] }
validator = { version = "*", features = ["derive"] }
yup-oauth2 = "*"
