[package]
name = "wallpaper_controller"
version = "0.1.0"
edition = "2021"
publish = false

[dependencies]
anyhow = "=1.0.104"
blake3 = "=1.8.7"
clap = { version = "=4.6.7", features = ["derive"] }
dialoguer = "=0.12.0"
dirs = "=7.0.0"
libvisdesk = "=0.1.7"
nameof = "=1.3.0"
sentry = { version = "=0.49.3", default-features = false, features = ["backtrace", "contexts", "panic", "tracing", "logs"] }
single-instance = "=0.3.3"
tokio = { version = "=1.54.1", features = ["macros", "rt-multi-thread", "process", "time", "signal", "sync"] }
tracing = "=0.1.44"
tracing-subscriber = { version = "=0.3.23", features = ["env-filter"] }
windows = { version = "=0.61.3", features = ["Win32_Foundation", "Win32_System_Console"] }
windows-elevate = "*"
windows-service = "=0.8.1"
