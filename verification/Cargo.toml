[package]
name = "update_supervisor"
version = "0.1.0"
edition = "2021"
publish = false

[dependencies]
anyhow = "=1.0.104"
aws-config = { version = "=1.12.0", features = ["behavior-version-latest"] }
aws-sdk-s3 = "=1.152.0"
aws-types = "~1.6.0"
tokio = { version = "=1.54.1", features = ["macros", "rt-multi-thread", "time"] }
