[package]
name = "gitlab-s3-releaser"
version = "0.1.0"
edition = "2021"
publish = false

[dependencies]
anyhow = "=1.0.104"
aws-config = { version = "=1.12.0", features = ["behavior-version-latest"] }
aws-sdk-s3 = { version = "=1.152.0", features = ["behavior-version-latest"] }
# Nothing here calls aws-types. aws-config 1.12 does not compile against
# aws-types 1.7, which cargo would pick by itself: hold it to the 1.6 line.
aws-types = "~1.6"
clap = { version = "=4.6.7", features = ["derive"] }
env_logger = "=0.11.11"
gitlab = "=0.1905.0"
log = "=0.4.34"
regex = "=1.13.1"
serde = { version = "=1.0.229", features = ["derive"] }
tokio = { version = "=1.54.1", features = ["macros", "rt-multi-thread"] }
