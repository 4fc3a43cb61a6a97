[package]
name = "lemmy_know"
version = "0.1.0"
edition = "2021"
publish = false

[dependencies]
anyhow = "=1.0.104"
async-trait = "=0.1.92"
clap = { version = "=4.6.7", features = ["derive", "env"] }
diesel = { version = "=2.3.14", features = ["postgres_backend", "serde_json"] }
diesel-async = { version = "=0.9.2", features = ["postgres"] }
dotenv = "=0.15.0"
lemmy-client = "=0.19.18"
rumqttc = "=0.25.1"
serde = { version = "=1.0.229", features = ["derive"] }
serde_json = "=1.0.151"
tokio = { version = "=1.53.2", features = ["rt-multi-thread", "macros", "signal", "time"] }
tokio-util = "=0.7.19"
webhook = "=2.1.2"
