[package]
name = "mcp_context_rust"
version = "0.1.0"
edition = "2021"
publish = false

[dependencies]
chrono = "*"
sha2 = "*"
uuid = { version = "*", features = ["v4"] }
