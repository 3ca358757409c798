[package]
name = "thief-fm-translation-agent"
version = "0.1.0"
edition = "2021"
publish = false

[dependencies]
aes-gcm = "*"
anyhow = "*"
base64 = "*"
chardet = "*"
dirs = "*"
encoding_rs = "*"
openai = "*"
rand = "*"
reqwest = { version = "*", features = ["json"] }
rusqlite = { version = "*", features = ["bundled"] }
serde = { version = "*", features = ["derive"] }
serde_json = "*"
sha2 = "*"
tokio = { version = "*", features = ["macros", "rt-multi-thread"] }
webbrowser = "*"
winreg = "*"
