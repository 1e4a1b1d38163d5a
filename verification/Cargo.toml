[package]
name = "sheet_accounts"
version = "0.1.0"
edition = "2021"
publish = false

[dependencies]
serde = { version = "1", features = ["derive"] }
serde_json = "1"
anyhow = "1"
once_cell = "1"
tokio = { version = "1", features = ["sync", "macros", "rt-multi-thread"] }
google-sheets4 = "5"
yup-oauth2 = "8"
rocket = { version = "0.5", features = ["json"] }
