[package]
name = "shell_proxy"
version = "0.1.0"
edition = "2021"
publish = false

[dependencies]
anyhow = "1"
base64-simd = "0.8"
clap = { version = "4", features = ["derive"] }
dirs = "6"
hex-simd = "0.8"
libc = "0.2"
rand = "0.9"
rmcp = { version = "*", features = ["server", "macros", "transport-io"] }
russh = { version = "*", default-features = false, features = ["ring", "rsa"] }
schemars = "1"
serde = { version = "1", features = ["derive"] }
serde_json = "1"
sha2 = "0.10"
signal-hook = "0.3"
spdlog-rs = "*"
thiserror = "2"
tokio = { version = "1", features = ["full"] }
toml = "*"
windows-sys = { version = "*", features = ["Win32_Foundation", "Win32_Security", "Win32_System_Console", "Win32_System_Threading"] }
