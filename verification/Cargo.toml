[package]
name = "tiki_ingest"
version = "0.1.0"
edition = "2021"
publish = false

[dependencies]
serde = { version = "1", features = ["derive"] }
serde_json = "1"
uuid = { version = "1", features = ["v4"] }
csv = "1"
bytes = "1"
futures = { version = "0.3", default-features = false, features = ["std", "async-await"] }
async-trait = "0.1"
tracing = "0.1"
tokio = { version = "1", default-features = false, features = ["io-util"] }
tokio-util = { version = "0.7", features = ["io"] }
async-compression = { version = "0.4", default-features = false, features = ["tokio", "gzip"] }
aws-config = { version = "1", default-features = false, features = ["behavior-version-latest"] }
aws-sdk-s3 = { version = "1", default-features = false, features = ["rt-tokio"] }
aws-sdk-sqs = { version = "1", default-features = false }
aws_lambda_events = { version = "*", default-features = false, features = ["cloudwatch_events", "s3"] }
lambda_runtime = "*"
parquet = { version = "*", default-features = false }
