[package]
name = "glass_bot"
version = "0.1.0"
edition = "2021"
publish = false

[dependencies]
dashmap = "*"
markov = "*"
regex = "*"
regex-syntax = "*"
aformat = "*"
to-arraystring = "*"
num-format = "*"
rosu-v2 = "*"
rosu-pp = "*"
chrono = "*"
time = "*"
serde = { version = "*", features = ["derive"] }
serde_json = "*"
tokio = { version = "*", features = ["full"] }
url = "*"
base64 = "*"
rand = "*"
poise = "*"
