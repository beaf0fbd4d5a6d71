[package]
name = "use_aws_mcp"
version = "0.1.0"
edition = "2021"
publish = false

[dependencies]
convert_case = "*"
tokio = { version = "*", features = ["full"] }
tracing = "*"
tracing-subscriber = { version = "*", features = ["env-filter"] }
bstr = "*"

[dev-dependencies]
serde_json = "*"
