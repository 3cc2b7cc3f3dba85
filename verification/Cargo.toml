[package]
name = "host_bridge"
version = "0.1.0"
edition = "2021"
publish = false

[dependencies]
serde_json = "=1.0.154"
snowflake = "=1.3.0"
wasmi = "=0.4.1"
