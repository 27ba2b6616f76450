[package]
name = "mysql_async_support"
version = "0.1.0"
edition = "2021"
publish = false

[dependencies]
chrono = { version = "=0.4.45", features = ["serde"] }
futures = "=0.3.34"
indexmap = { version = "=2.14.2", features = ["serde"] }
mysql_async = { version = "=0.37.1", default-features = false, features = ["minimal"] }
serde = { version = "=1.0.229", features = ["derive"] }
ssh_jumper = "=0.4.0"

[dev-dependencies]
mysql_common = { version = "=0.37.3", default-features = false }
