[package]
name = "swiftpp"
version = "0.1.0"
edition = "2021"
publish = false

[dependencies]
gimli = "*"
object = "*"
memmap2 = "*"
serde = { version = "1", features = ["derive"] }
serde_json = "1"
tokio = { version = "1", features = ["net", "io-util", "sync", "rt", "rt-multi-thread", "macros"] }
clap = "*"
env_logger = "*"
crossbeam-channel = "*"
num_cpus = "*"
futures = "*"
windows-sys = { version = "*", features = ["Win32_Foundation", "Win32_System_Diagnostics_Debug", "Win32_System_Threading", "Win32_System_Memory", "Win32_System_Kernel", "Win32_Security"] }
