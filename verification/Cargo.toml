[package]
name = "rmux"
version = "0.1.0"
edition = "2021"
publish = false

[dependencies]
libc = "=0.2.191"
rustix = { version = "=1.1.6", features = ["process", "termios"] }
serde = { version = "=1.0.229", features = ["derive"] }
tokio = { version = "=1.54.1", features = ["io-util", "macros", "net", "rt", "sync", "time"] }
tracing = "=0.1.44"
windows-sys = { version = "=0.59.0", features = ["Win32_Foundation", "Win32_Security", "Win32_System_Console", "Win32_System_JobObjects", "Win32_System_Threading"] }
