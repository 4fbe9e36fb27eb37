[package]
name = "orgbrain"
version = "0.1.0"
edition = "2021"
publish = false

[dependencies]
anyhow = "1"
async-openai = "0.28"
async-trait = "0.1"
axum = "0.7"
base64 = "0.22"
chrono = { version = "0.4", features = ["serde"] }
csv = "1"
dotenv = "0.15"
futures = "0.3"
neo4rs = "0.7"
once_cell = "1"
pocketflow_rs = "0.1"
reqwest = { version = "0.12", features = ["json", "multipart"] }
rrag = "0.1.0-alpha.2"
serde = { version = "1", features = ["derive"] }
serde_json = "1"
tokio = { version = "1", features = ["full"] }
tokio-stream = { version = "0.1", features = ["sync"] }
tower-http = { version = "0.5", features = ["cors"] }
utoipa = { version = "4", features = ["uuid", "chrono"] }
uuid = { version = "1", features = ["v4", "serde"] }
