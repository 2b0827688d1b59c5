[package]
name = "codex-kit"
version = "0.1.0"
edition = "2021"
publish = false

[dependencies]
async-trait = "0.1"
crossterm = "0.28"
ratatui = "0.29"
regex-lite = "0.1"
serde = { version = "1", features = ["derive"] }
serde_json = "1"
strum = { version = "0.27", features = ["derive"] }
tempfile = "3"
textwrap = "0.16"
tokio = { version = "1", features = ["fs", "io-util", "macros", "process", "rt", "rt-multi-thread", "sync", "time"] }
tokio-util = "0.7"
tracing = "0.1"
uuid = { version = "1", features = ["v4"] }
which = "6"
windows-sys = { version = "0.52", features = ["Win32_Foundation", "Win32_System_Power", "Win32_System_SystemServices", "Win32_System_Threading"] }
