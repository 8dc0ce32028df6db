[package]
name = "commit_ingest"
version = "0.1.0"
edition = "2021"
publish = false

[dependencies]
regex = "=1.13.1"
chrono = "=0.4.45"
uuid = { version = "=1.29.0", features = ["v4"] }
zip = { version = "=9.0.5", default-features = false, features = ["deflate"] }
git2 = "=0.21.0"
anyhow = "=1.0.104"
serde = { version = "=1.0.229", features = ["derive"] }
serde_json = "=1.0.154"
tokio = { version = "=1.54.1", features = ["full"] }
axum = "=0.8.9"
sqlx = { version = "=0.9.0", features = ["mysql", "runtime-tokio", "chrono"] }
tower-http = { version = "=0.7.1", features = ["cors", "trace"] }
tracing = "=0.1.44"
tracing-subscriber = { version = "=0.3.23", features = ["env-filter"] }
dotenvy = "=0.15.7"
aws-config = { version = "=1.12.0", features = ["behavior-version-latest"] }
aws-sdk-s3 = "=1.152.0"
# aws-config 1.12 is written against the 1.6 line of aws-types and does not
# compile with 1.7, which would be chosen otherwise.
aws-types = "~1.6"
