[package]
name = "binlog_client"
version = "0.1.0"
edition = "2021"
publish = false

[dependencies]
anyhow = "=1.0.104"
futures-util = "=0.3.34"
mysql_async = { version = "=0.37.1", features = ["binlog"] }
tokio = { version = "=1.53.2", features = ["rt-multi-thread", "macros"] }
uuid = "=1.27.0"
