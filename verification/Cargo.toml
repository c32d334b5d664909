[package]
name = "weather_query"
version = "0.1.0"
edition = "2021"
publish = false

[dependencies]
ic-cdk = "=0.17.2"
ic-cdk-macros = "=0.17.2"
candid = "=0.10.37"
serde = "=1.0.229"

[dev-dependencies]
serde_json = "=1.0.151"
