[package]
name = "zkp_auth"
version = "0.1.0"
edition = "2021"
publish = false

[dependencies]
num-bigint = "0.4"
k256 = "0.13"
rand = "0.8"
uuid = { version = "1", features = ["v4"] }
tokio = { version = "1", features = ["macros", "rt-multi-thread", "sync"] }
tonic = "0.10"
prost = "0.12"
tonic-health = "0.10"
tonic-web = "0.10"
tower-http = { version = "0.4", features = ["cors"] }
http = "0.2"
log = "0.4"
env_logger = "0.10"
dotenv = "0.15"
eyre = "0.6"
