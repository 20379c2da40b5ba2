[package]
name = "aws_manager"
version = "0.1.0"
edition = "2021"
publish = false

[dependencies]
anyhow = "1"
bytes = "0.5"
chrono = { version = "0.4", features = ["serde"] }
dirs = "3"
futures = "0.3"
hyper = "0.13"
libzmq = "0.2"
log = "0.4"
pretty_env_logger = "0.4"
rayon = "1"
regex = "1"
reqwest = { version = "0.10", default-features = false }
resiter = "0.4"
rusoto_core = { version = "0.45", default-features = false, features = ["rustls"] }
rusoto_credential = "0.45"
rusoto_ecs = { version = "0.45", default-features = false, features = ["rustls"] }
rusoto_logs = { version = "0.45", default-features = false, features = ["rustls"] }
rusoto_s3 = { version = "0.45", default-features = false, features = ["rustls"] }
rusoto_sts = { version = "0.45", default-features = false, features = ["rustls"] }
serde = { version = "1", features = ["derive"] }
serde_json = "1"
serde-xml-rs = "0.4"
tokio = { version = "0.2", features = ["full"] }
warp = { version = "0.2", default-features = false }
