[package]
name = "kcl_copilot"
version = "0.1.0"
edition = "2021"
publish = false

[dependencies]
uuid = { version = "*", features = ["v4"] }
serde = { version = "*", features = ["derive"] }
tokio = { version = "*", features = ["full"] }
tower-lsp = "*"
async-trait = "*"
kittycad = "*"
