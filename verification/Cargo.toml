[package]
name = "ellie"
version = "0.1.0"
edition = "2021"
publish = false

[dependencies]
serde_json = { version = "=1.0.151", features = ["float_roundtrip"] }
shellexpand = "=3.1.2"
tiktoken-rs = "=0.12.1"
async-openai = { version = "=0.42.1", features = ["chat-completion"] }
color-eyre = "*"
dialoguer = "=0.12.0"
directories = "=6.0.0"
duct = "=1.1.2"
futures = "*"
log = "*"
pretty_env_logger = "*"
serde = { version = "*", features = ["derive"] }
tokio = { version = "*", features = ["macros", "rt-multi-thread", "io-std", "io-util"] }
toml = "=1.1.7"
