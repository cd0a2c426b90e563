[package]
name = "awsx"
version = "0.1.0"
edition = "2021"
publish = false

[dependencies]
async-trait = "0.1"
atty = "0.2"
chrono = "0.4"
futures = "0.3"
git2 = { version = "*", default-features = false }
indexmap = "2"
itertools = "*"
md-5 = "0.10"
prettytable-rs = "0.10"
regex = "1"
rusoto_autoscaling = { version = "0.48", default-features = false, features = ["rustls"] }
rusoto_cloudformation = { version = "0.48", default-features = false, features = ["rustls"] }
rusoto_cloudfront = { version = "0.48", default-features = false, features = ["rustls"] }
rusoto_core = { version = "0.48", default-features = false, features = ["rustls"] }
rusoto_credential = "0.48"
rusoto_ec2 = { version = "0.48", default-features = false, features = ["rustls"] }
rusoto_elbv2 = { version = "0.48", default-features = false, features = ["rustls"] }
rusoto_rds = { version = "0.48", default-features = false, features = ["rustls"] }
rusoto_s3 = { version = "0.48", default-features = false, features = ["rustls"] }
rusoto_sts = { version = "0.48", default-features = false, features = ["rustls"] }
serde = { version = "1", features = ["derive"] }
serde_json = "1"
serde_yaml = "0.9"
structopt = "0.3"
tokio = { version = "1", features = ["macros", "rt-multi-thread"] }
uuid = { version = "1", features = ["v4"] }
